use vstd::prelude::*;
use vstd::string::StringExecFns;

verus! {

/// A dynamically typed value held by the store.
///
/// A number is held as its decimal text, the form it is shown in: integral
/// values carry no fractional part (`"42"`, not `"42.0"`).
#[derive(Debug)]
pub enum Value {
    Null,
    Bool(bool),
    Number(String),
    String(String),
}

/// The mathematical content of a value.
pub enum ValueView {
    Null,
    Bool(bool),
    Number(Seq<char>),
    Text(Seq<char>),
}

impl View for Value {
    type V = ValueView;

    open spec fn view(&self) -> ValueView {
        match self {
            Value::Null => ValueView::Null,
            Value::Bool(b) => ValueView::Bool(*b),
            Value::Number(t) => ValueView::Number(t@),
            Value::String(s) => ValueView::Text(s@),
        }
    }
}

/// How a value reads as text: nothing for null, `true`/`false`, the number's
/// decimal text, or the string itself.
pub open spec fn text_of(v: ValueView) -> Seq<char> {
    match v {
        ValueView::Null => Seq::empty(),
        ValueView::Bool(b) => if b {
            seq!['t', 'r', 'u', 'e']
        } else {
            seq!['f', 'a', 'l', 's', 'e']
        },
        ValueView::Number(t) => t,
        ValueView::Text(s) => s,
    }
}

impl Value {
    pub fn string(s: String) -> (r: Self)
        ensures
            r@ == ValueView::Text(s@),
    {
        Value::String(s)
    }

    /// A number given by its decimal text.
    pub fn number_text(text: String) -> (r: Self)
        ensures
            r@ == ValueView::Number(text@),
    {
        Value::Number(text)
    }

    pub fn bool(b: bool) -> (r: Self)
        ensures
            r@ == ValueView::Bool(b),
    {
        Value::Bool(b)
    }

    pub fn as_str(&self) -> (r: Option<&str>)
        ensures
            match self@ {
                ValueView::Text(s) => r is Some && r->Some_0@ == s,
                _ => r is None,
            },
    {
        match self {
            Value::String(s) => Some(s.as_str()),
            _ => None,
        }
    }

    pub fn as_bool(&self) -> (r: Option<bool>)
        ensures
            match self@ {
                ValueView::Bool(b) => r == Some(b),
                _ => r is None,
            },
    {
        match self {
            Value::Bool(b) => Some(*b),
            _ => None,
        }
    }

    pub fn is_null(&self) -> (r: bool)
        ensures
            r == (self@ is Null),
    {
        match self {
            Value::Null => true,
            _ => false,
        }
    }

    /// The value as text, as `text_of` gives it.
    pub fn to_string_value(&self) -> (r: String)
        ensures
            r@ == text_of(self@),
    {
        match self {
            Value::Null => String::new(),
            Value::Bool(b) => {
                if *b {
                    let r = String::from_str("true");
                    proof {
                        reveal_strlit("true");
                    }
                    r
                } else {
                    let r = String::from_str("false");
                    proof {
                        reveal_strlit("false");
                    }
                    r
                }
            },
            Value::Number(t) => t.clone(),
            Value::String(s) => s.clone(),
        }
    }

    /// A copy with the same content.
    pub fn duplicate(&self) -> (r: Value)
        ensures
            r@ == self@,
    {
        match self {
            Value::Null => Value::Null,
            Value::Bool(b) => Value::Bool(*b),
            Value::Number(t) => Value::Number(t.clone()),
            Value::String(s) => Value::String(s.clone()),
        }
    }
}

/// The map that a list of entries describes, later entries shadowing earlier ones.
pub open spec fn map_of(s: Seq<(String, Value)>) -> Map<Seq<char>, ValueView>
    decreases s.len(),
{
    if s.len() == 0 {
        Map::empty()
    } else {
        map_of(s.drop_last()).insert(s.last().0@, s.last().1@)
    }
}

/// No two entries share a key.
pub open spec fn keys_distinct(s: Seq<(String, Value)>) -> bool {
    forall|i: int, j: int| 0 <= i < j < s.len() ==> s[i].0@ != s[j].0@
}

proof fn lemma_map_of(s: Seq<(String, Value)>)
    requires
        keys_distinct(s),
    ensures
        forall|k: Seq<char>|
            #[trigger] map_of(s).contains_key(k) <==> exists|i: int| 0 <= i < s.len() && s[i].0@ == k,
        forall|i: int| 0 <= i < s.len() ==> #[trigger] map_of(s)[s[i].0@] == s[i].1@,
    decreases s.len(),
{
    if s.len() > 0 {
        let t = s.drop_last();
        assert(keys_distinct(t));
        lemma_map_of(t);
        assert forall|k: Seq<char>|
            #[trigger] map_of(s).contains_key(k) <==> exists|i: int| 0 <= i < s.len() && s[i].0@ == k by {
            if map_of(t).contains_key(k) {
                let i = choose|i: int| 0 <= i < t.len() && t[i].0@ == k;
                assert(s[i].0@ == k);
            }
            if exists|i: int| 0 <= i < s.len() && s[i].0@ == k {
                let i = choose|i: int| 0 <= i < s.len() && s[i].0@ == k;
                if i < s.len() - 1 {
                    assert(t[i].0@ == k);
                }
            }
        }
        assert forall|i: int| 0 <= i < s.len() implies #[trigger] map_of(s)[s[i].0@] == s[i].1@ by {
            if i < s.len() - 1 {
                assert(t[i] == s[i]);
                assert(s[i].0@ != s.last().0@);
                assert(map_of(t)[t[i].0@] == t[i].1@);
            }
        }
    }
}

/// Two entry lists with distinct keys describe the same map when they hold the
/// same keys and agree on each key's value.
proof fn lemma_same_map(s: Seq<(String, Value)>, m: Map<Seq<char>, ValueView>)
    requires
        keys_distinct(s),
        forall|k: Seq<char>|
            #[trigger] m.contains_key(k) <==> exists|i: int| 0 <= i < s.len() && s[i].0@ == k,
        forall|i: int| 0 <= i < s.len() ==> #[trigger] m[s[i].0@] == s[i].1@,
    ensures
        map_of(s) == m,
{
    lemma_map_of(s);
    assert(map_of(s) =~= m) by {
        assert forall|k: Seq<char>| #[trigger] m.contains_key(k) implies map_of(s)[k] == m[k] by {
            let i = choose|i: int| 0 <= i < s.len() && s[i].0@ == k;
            assert(map_of(s)[s[i].0@] == s[i].1@);
        }
    }
}

/// A flat key/value store. Lookups degrade gracefully: a missing key or a value
/// of another kind reads as nothing, an empty string, or `false`.
pub struct Store {
    data: Vec<(String, Value)>,
}

impl View for Store {
    type V = Map<Seq<char>, ValueView>;

    closed spec fn view(&self) -> Map<Seq<char>, ValueView> {
        map_of(self.data@)
    }
}

impl Store {
    /// The store's invariant: no key is held twice.
    pub closed spec fn wf(&self) -> bool {
        keys_distinct(self.data@)
    }

    pub fn new() -> (r: Self)
        ensures
            r.wf(),
            r@ == Map::<Seq<char>, ValueView>::empty(),
    {
        Store { data: Vec::new() }
    }

    /// The position of `key` among the entries.
    fn find(&self, key: &str) -> (r: Option<usize>)
        requires
            self.wf(),
        ensures
            match r {
                Some(i) => i < self.data@.len() && self.data@[i as int].0@ == key@,
                None => forall|i: int| 0 <= i < self.data@.len() ==> self.data@[i].0@ != key@,
            },
    {
        let k = String::from_str(key);
        let mut i: usize = 0;
        while i < self.data.len()
            invariant
                0 <= i <= self.data@.len(),
                k@ == key@,
                forall|j: int| 0 <= j < i ==> self.data@[j].0@ != key@,
            decreases self.data@.len() - i,
        {
            if self.data[i].0 == k {
                return Some(i);
            }
            i += 1;
        }
        None
    }

    pub fn get(&self, key: &str) -> (r: Option<&Value>)
        requires
            self.wf(),
        ensures
            match r {
                Some(v) => self@.contains_key(key@) && self@[key@] == v@,
                None => !self@.contains_key(key@),
            },
    {
        proof {
            lemma_map_of(self.data@);
        }
        match self.find(key) {
            Some(i) => Some(&self.data[i].1),
            None => None,
        }
    }

    pub fn contains(&self, key: &str) -> (r: bool)
        requires
            self.wf(),
        ensures
            r == self@.contains_key(key@),
    {
        proof {
            lemma_map_of(self.data@);
        }
        self.find(key).is_some()
    }

    /// Sets `key` to `value`, replacing what it held.
    pub fn set(&mut self, key: String, value: Value)
        requires
            old(self).wf(),
        ensures
            final(self).wf(),
            final(self)@ == old(self)@.insert(key@, value@),
    {
        let ghost m = self@.insert(key@, value@);
        proof {
            lemma_map_of(self.data@);
        }
        match self.find(key.as_str()) {
            Some(i) => {
                let ghost pre = self.data@;
                self.data.set(i, (key, value));
                proof {
                    assert(keys_distinct(self.data@)) by {
                        assert forall|a: int, b: int| 0 <= a < b < self.data@.len() implies self.data@[a].0@
                            != self.data@[b].0@ by {
                            assert(pre[a].0@ != pre[b].0@);
                        }
                    }
                    assert forall|k: Seq<char>| #[trigger] m.contains_key(k) <==> exists|j: int|
                        0 <= j < self.data@.len() && self.data@[j].0@ == k by {
                        if m.contains_key(k) && k != key@ {
                            let j = choose|j: int| 0 <= j < pre.len() && pre[j].0@ == k;
                            assert(self.data@[j].0@ == k);
                        }
                        if k == key@ {
                            assert(self.data@[i as int].0@ == k);
                        }
                        if exists|j: int| 0 <= j < self.data@.len() && self.data@[j].0@ == k {
                            let j = choose|j: int| 0 <= j < self.data@.len() && self.data@[j].0@ == k;
                            if j != i {
                                assert(pre[j].0@ == k);
                            }
                        }
                    }
                    assert forall|j: int| 0 <= j < self.data@.len() implies #[trigger] m[self.data@[j].0@]
                        == self.data@[j].1@ by {
                        if j != i {
                            assert(pre[j] == self.data@[j]);
                            assert(pre[j].0@ != key@);
                        }
                    }
                    lemma_same_map(self.data@, m);
                }
            },
            None => {
                let ghost pre = self.data@;
                self.data.push((key, value));
                proof {
                    assert(self.data@.drop_last() == pre);
                    assert(keys_distinct(self.data@)) by {
                        assert forall|a: int, b: int| 0 <= a < b < self.data@.len() implies self.data@[a].0@
                            != self.data@[b].0@ by {
                            if b < pre.len() {
                                assert(pre[a].0@ != pre[b].0@);
                            } else {
                                assert(pre[a].0@ != key@);
                            }
                        }
                    }
                }
            },
        }
    }

    /// Removes `key`, handing back the value it held.
    pub fn remove(&mut self, key: &str) -> (r: Option<Value>)
        requires
            old(self).wf(),
        ensures
            final(self).wf(),
            final(self)@ == old(self)@.remove(key@),
            match r {
                Some(v) => old(self)@.contains_key(key@) && old(self)@[key@] == v@,
                None => !old(self)@.contains_key(key@),
            },
    {
        proof {
            lemma_map_of(self.data@);
        }
        match self.find(key) {
            Some(i) => {
                let ghost pre = self.data@;
                let ghost m = self@.remove(key@);
                let entry = self.data.remove(i);
                proof {
                    assert(self.data@ == pre.remove(i as int));
                    assert(keys_distinct(self.data@)) by {
                        assert forall|a: int, b: int| 0 <= a < b < self.data@.len() implies self.data@[a].0@
                            != self.data@[b].0@ by {
                            let a2 = if a < i { a } else { a + 1 };
                            let b2 = if b < i { b } else { b + 1 };
                            assert(pre[a2] == self.data@[a] && pre[b2] == self.data@[b]);
                        }
                    }
                    assert forall|k: Seq<char>| #[trigger] m.contains_key(k) <==> exists|j: int|
                        0 <= j < self.data@.len() && self.data@[j].0@ == k by {
                        if m.contains_key(k) {
                            let j = choose|j: int| 0 <= j < pre.len() && pre[j].0@ == k;
                            if j < i {
                                assert(self.data@[j].0@ == k);
                            } else {
                                assert(j != i);
                                assert(self.data@[j - 1].0@ == k);
                            }
                        }
                        if exists|j: int| 0 <= j < self.data@.len() && self.data@[j].0@ == k {
                            let j = choose|j: int| 0 <= j < self.data@.len() && self.data@[j].0@ == k;
                            let j2 = if j < i { j } else { j + 1 };
                            assert(pre[j2].0@ == k);
                            assert(j2 != i);
                        }
                    }
                    assert forall|j: int| 0 <= j < self.data@.len() implies #[trigger] m[self.data@[j].0@]
                        == self.data@[j].1@ by {
                        let j2 = if j < i { j } else { j + 1 };
                        assert(pre[j2] == self.data@[j]);
                        assert(j2 != i);
                    }
                    lemma_same_map(self.data@, m);
                }
                Some(entry.1)
            },
            None => {
                proof {
                    assert(self@.remove(key@) =~= self@);
                }
                None
            },
        }
    }

    /// The string held at `key`, or `""` when it is missing or not a string.
    pub fn get_str(&self, key: &str) -> (r: &str)
        requires
            self.wf(),
        ensures
            r@ == (if self@.contains_key(key@) && self@[key@] is Text {
                self@[key@]->Text_0
            } else {
                Seq::empty()
            }),
    {
        proof {
            reveal_strlit("");
        }
        match self.get(key) {
            Some(v) => match v.as_str() {
                Some(s) => s,
                None => "",
            },
            None => "",
        }
    }

    /// The value at `key` as text (see `text_of`), or `""` when it is missing.
    pub fn get_string(&self, key: &str) -> (r: String)
        requires
            self.wf(),
        ensures
            r@ == (if self@.contains_key(key@) {
                text_of(self@[key@])
            } else {
                Seq::empty()
            }),
    {
        match self.get(key) {
            Some(v) => v.to_string_value(),
            None => String::new(),
        }
    }

    /// The boolean at `key`, or `false` when it is missing or not a boolean.
    pub fn get_bool(&self, key: &str) -> (r: bool)
        requires
            self.wf(),
        ensures
            r == (self@.contains_key(key@) && self@[key@] == ValueView::Bool(true)),
    {
        match self.get(key) {
            Some(v) => match v.as_bool() {
                Some(b) => b,
                None => false,
            },
            None => false,
        }
    }

    /// Every key, once each.
    pub fn keys(&self) -> (r: Vec<String>)
        requires
            self.wf(),
        ensures
            forall|k: Seq<char>|
                self@.contains_key(k) <==> exists|i: int| 0 <= i < r@.len() && #[trigger] r@[i]@ == k,
            forall|i: int, j: int| 0 <= i < j < r@.len() ==> r@[i]@ != r@[j]@,
    {
        proof {
            lemma_map_of(self.data@);
        }
        let mut out: Vec<String> = Vec::new();
        let mut i: usize = 0;
        while i < self.data.len()
            invariant
                0 <= i <= self.data@.len(),
                out@.len() == i,
                forall|j: int| 0 <= j < i ==> #[trigger] out@[j]@ == self.data@[j].0@,
            decreases self.data@.len() - i,
        {
            out.push(self.data[i].0.clone());
            i += 1;
        }
        proof {
            assert forall|k: Seq<char>| self@.contains_key(k) <==> exists|i: int|
                0 <= i < out@.len() && #[trigger] out@[i]@ == k by {
                if self@.contains_key(k) {
                    let j = choose|j: int| 0 <= j < self.data@.len() && self.data@[j].0@ == k;
                    assert(out@[j]@ == k);
                }
            }
        }
        out
    }

    /// Empties the store.
    pub fn clear(&mut self)
        ensures
            final(self).wf(),
            final(self)@ == Map::<Seq<char>, ValueView>::empty(),
    {
        self.data = Vec::new();
    }
}

} // verus!
