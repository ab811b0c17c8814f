use vstd::prelude::*;
use crate::store::{Store, Value, ValueView};

verus! {

/// A named request for application logic, with an optional payload.
pub struct Action {
    pub name: String,
    pub payload: Store,
}

impl Action {
    pub fn new(name: String) -> (r: Self)
        ensures
            r.name@ == name@,
            r.payload.wf(),
            r.payload@ == Map::<Seq<char>, ValueView>::empty(),
    {
        Action { name, payload: Store::new() }
    }

    pub fn with_payload(name: String, payload: Store) -> (r: Self)
        ensures
            r.name@ == name@,
            r.payload == payload,
    {
        Action { name, payload }
    }

    /// The same action with `key` set to `value` in its payload.
    pub fn with(self, key: String, value: Value) -> (r: Self)
        requires
            self.payload.wf(),
        ensures
            r.name@ == self.name@,
            r.payload.wf(),
            r.payload@ == self.payload@.insert(key@, value@),
    {
        let mut a = self;
        a.payload.set(key, value);
        a
    }

    pub fn get(&self, key: &str) -> (r: Option<&Value>)
        requires
            self.payload.wf(),
        ensures
            match r {
                Some(v) => self.payload@.contains_key(key@) && self.payload@[key@] == v@,
                None => !self.payload@.contains_key(key@),
            },
    {
        self.payload.get(key)
    }

    /// The string at `key` in the payload, if there is one.
    pub fn get_str(&self, key: &str) -> (r: Option<&str>)
        requires
            self.payload.wf(),
        ensures
            match r {
                Some(s) => self.payload@.contains_key(key@) && self.payload@[key@]
                    == ValueView::Text(s@),
                None => !(self.payload@.contains_key(key@) && self.payload@[key@] is Text),
            },
    {
        match self.payload.get(key) {
            Some(v) => v.as_str(),
            None => None,
        }
    }
}

/// Why an action failed.
#[derive(Debug)]
pub enum ActionError {
    /// No handler took the action.
    NotHandled(String),
    /// A handler failed while processing it.
    Failed(String),
}

/// Services available to action handlers; none are offered yet.
#[derive(Debug)]
pub struct Services {}

impl Services {
    pub fn new() -> (r: Self) {
        Services {  }
    }
}

/// A link of the dispatch chain, implemented by the application.
pub trait ActionHandler {
    /// `Ok(true)`: handled, stop. `Ok(false)`: pass it on. `Err`: abort.
    /// A store changes only through its own methods, which keep its invariant.
    fn handle(&mut self, action: &Action, store: &mut Store, services: &Services) -> (r: Result<
        bool,
        ActionError,
    >)
        requires
            old(store).wf(),
        ensures
            final(store).wf(),
    ;
}

/// What a handler's answer means for the chain: `None` to go on to the next
/// handler, `Some(r)` to stop and return `r`.
pub open spec fn step_spec(outcome: Result<bool, ActionError>) -> Option<Result<bool, ActionError>> {
    match outcome {
        Ok(false) => None,
        other => Some(other),
    }
}

/// The result of a chain whose handlers answer `outcomes`, in order: the first
/// answer that is not `Ok(false)`, else `Ok(false)`.
pub open spec fn chain_spec(outcomes: Seq<Result<bool, ActionError>>) -> Result<bool, ActionError>
    decreases outcomes.len(),
{
    if outcomes.len() == 0 {
        Ok(false)
    } else {
        match step_spec(outcomes[0]) {
            Some(r) => r,
            None => chain_spec(outcomes.drop_first()),
        }
    }
}

/// How many handlers a chain whose handlers answer `outcomes` asks: up to
/// and including the first that does not answer `Ok(false)`.
pub open spec fn asked_spec(outcomes: Seq<Result<bool, ActionError>>) -> nat
    decreases outcomes.len(),
{
    if outcomes.len() == 0 {
        0
    } else {
        match step_spec(outcomes[0]) {
            Some(_) => 1,
            None => 1 + asked_spec(outcomes.drop_first()),
        }
    }
}

/// Decides what one handler's answer means for the chain.
pub fn chain_step(outcome: Result<bool, ActionError>) -> (r: Option<Result<bool, ActionError>>)
    ensures
        r == step_spec(outcome),
{
    match outcome {
        Ok(false) => None,
        other => Some(other),
    }
}

/// The chain's result over handler answers given in order, and how many of
/// them it consults.
pub fn settle(outcomes: Vec<Result<bool, ActionError>>) -> (r: (Result<bool, ActionError>, usize))
    ensures
        r.0 == chain_spec(outcomes@),
        r.1 == asked_spec(outcomes@),
{
    let mut i: usize = 0;
    let mut rest = outcomes;
    let n = rest.len();
    let ghost all = rest@;
    while i < n
        invariant
            0 <= i <= n,
            n == all.len(),
            all == outcomes@,
            rest@ == all.subrange(i as int, n as int),
            chain_spec(all) == chain_spec(rest@),
            asked_spec(all) == i + asked_spec(rest@),
        decreases n - i,
    {
        let ghost tail = rest@;
        let outcome = rest.remove(0);
        assert(outcome == tail[0]);
        assert(rest@ == tail.drop_first());
        match chain_step(outcome) {
            Some(r) => {
                assert(step_spec(tail[0]) == Some(r));
                assert(chain_spec(tail) == r);
                assert(asked_spec(tail) == 1);
                return (r, i + 1);
            },
            None => {},
        }
        i += 1;
    }
    (Ok(false), i)
}

/// Handlers in registration order, asked in turn until one takes the action.
pub struct ActionDispatcher {
    handlers: Vec<Box<dyn ActionHandler>>,
    /// The names of the actions dispatched so far, in order.
    dispatched: Ghost<Seq<Seq<char>>>,
}

impl ActionDispatcher {
    pub closed spec fn len_spec(&self) -> nat {
        self.handlers@.len()
    }

    /// The names of the actions dispatched so far, in order.
    pub closed spec fn log_spec(&self) -> Seq<Seq<char>> {
        self.dispatched@
    }

    pub fn new() -> (r: Self)
        ensures
            r.len_spec() == 0,
            r.log_spec() == Seq::<Seq<char>>::empty(),
    {
        ActionDispatcher { handlers: Vec::new(), dispatched: Ghost(Seq::empty()) }
    }

    /// Appends a handler to the end of the chain.
    pub fn add_handler<H: ActionHandler + 'static>(&mut self, handler: H) {
        let boxed: Box<dyn ActionHandler> = Box::new(handler);
        self.handlers.push(boxed);
    }

    /// Asks each handler in order. The first `Ok(true)` or `Err` ends the
    /// chain and is returned; when every handler passes, the result is
    /// `Ok(false)`: an action nobody takes is not an error here.
    pub fn dispatch(&mut self, action: &Action, store: &mut Store, services: &Services) -> (r: Result<
        bool,
        ActionError,
    >)
        requires
            old(store).wf(),
        ensures
            final(store).wf(),
            final(self).len_spec() == old(self).len_spec(),
            final(self).log_spec() == old(self).log_spec().push(action.name@),
            old(self).len_spec() == 0 ==> r == Ok::<bool, ActionError>(false),
            exists|answers: Seq<Result<bool, ActionError>>|
                {
                    &&& answers.len() <= old(self).len_spec()
                    &&& answers.len() == asked_spec(answers)
                    &&& r == chain_spec(answers)
                    &&& (r == Ok::<bool, ActionError>(false) ==> answers.len() == old(self).len_spec())
                },
    {
        self.dispatched = Ghost(self.dispatched@.push(action.name@));
        let n = self.handlers.len();
        let mut i: usize = 0;
        let ghost mut answers: Seq<Result<bool, ActionError>> = Seq::empty();
        while i < self.handlers.len()
            invariant
                self.handlers@.len() == n,
                n == old(self).handlers@.len(),
                self.dispatched@ == old(self).dispatched@.push(action.name@),
                store.wf(),
                answers.len() == i,
                i <= n,
                forall|j: int| 0 <= j < i ==> #[trigger] answers[j] == Ok::<bool, ActionError>(false),
            decreases n - i,
        {
            let outcome = self.handlers[i].handle(action, store, services);
            let ghost o = outcome;
            match chain_step(outcome) {
                Some(r) => {
                    proof {
                        let all = answers.push(o);
                        assert forall|j: int| 0 <= j < i implies #[trigger] all[j] == Ok::<bool, ActionError>(false) by {
                            assert(all[j] == answers[j]);
                        }
                        lemma_chain_stops(all, i as int);
                        assert(all.len() <= n && all.len() == asked_spec(all) && r == chain_spec(all));
                    }
                    return r;
                },
                None => {},
            }
            proof {
                let all = answers.push(o);
                assert forall|j: int| 0 <= j < i + 1 implies #[trigger] all[j] == Ok::<bool, ActionError>(false) by {
                    if j < i {
                        assert(all[j] == answers[j]);
                    }
                }
                answers = all;
            }
            i += 1;
        }
        proof {
            lemma_chain_passes(answers);
        }
        Ok(false)
    }
}

/// Handlers that pass before one that fails: the chain returns that failure,
/// and asks no handler after it.
pub proof fn lemma_error_stops_chain(outcomes: Seq<Result<bool, ActionError>>, k: int)
    requires
        0 <= k < outcomes.len(),
        forall|j: int| 0 <= j < k ==> #[trigger] outcomes[j] == Ok::<bool, ActionError>(false),
        outcomes[k] is Err,
    ensures
        chain_spec(outcomes) == outcomes[k],
        asked_spec(outcomes) == k + 1,
    decreases k,
{
    if k > 0 {
        let rest = outcomes.drop_first();
        assert forall|j: int| 0 <= j < k - 1 implies #[trigger] rest[j] == Ok::<bool, ActionError>(
            false,
        ) by {
            assert(rest[j] == outcomes[j + 1]);
        }
        lemma_error_stops_chain(rest, k - 1);
        assert(outcomes[0] == Ok::<bool, ActionError>(false));
    }
}

/// Handlers that pass before one that takes the action: the chain returns
/// `Ok(true)` after asking exactly those handlers.
pub proof fn lemma_taken_stops_chain(outcomes: Seq<Result<bool, ActionError>>, k: int)
    requires
        0 <= k < outcomes.len(),
        forall|j: int| 0 <= j < k ==> #[trigger] outcomes[j] == Ok::<bool, ActionError>(false),
        outcomes[k] == Ok::<bool, ActionError>(true),
    ensures
        chain_spec(outcomes) == Ok::<bool, ActionError>(true),
        asked_spec(outcomes) == k + 1,
    decreases k,
{
    if k > 0 {
        let rest = outcomes.drop_first();
        assert forall|j: int| 0 <= j < k - 1 implies #[trigger] rest[j] == Ok::<bool, ActionError>(
            false,
        ) by {
            assert(rest[j] == outcomes[j + 1]);
        }
        lemma_taken_stops_chain(rest, k - 1);
        assert(outcomes[0] == Ok::<bool, ActionError>(false));
    }
}

/// Handlers that all pass: the chain asks every one and returns `Ok(false)`.
pub proof fn lemma_chain_passes(outcomes: Seq<Result<bool, ActionError>>)
    requires
        forall|j: int| 0 <= j < outcomes.len() ==> #[trigger] outcomes[j] == Ok::<bool, ActionError>(false),
    ensures
        chain_spec(outcomes) == Ok::<bool, ActionError>(false),
        asked_spec(outcomes) == outcomes.len(),
    decreases outcomes.len(),
{
    if outcomes.len() > 0 {
        let rest = outcomes.drop_first();
        assert forall|j: int| 0 <= j < rest.len() implies #[trigger] rest[j] == Ok::<bool, ActionError>(false) by {
            assert(rest[j] == outcomes[j + 1]);
        }
        lemma_chain_passes(rest);
        assert(outcomes[0] == Ok::<bool, ActionError>(false));
    }
}

/// Handlers that pass before one that does not: the chain returns that
/// answer after asking exactly those handlers.
pub proof fn lemma_chain_stops(outcomes: Seq<Result<bool, ActionError>>, k: int)
    requires
        0 <= k < outcomes.len(),
        forall|j: int| 0 <= j < k ==> #[trigger] outcomes[j] == Ok::<bool, ActionError>(false),
        step_spec(outcomes[k]) is Some,
    ensures
        chain_spec(outcomes) == outcomes[k],
        asked_spec(outcomes) == k + 1,
    decreases k,
{
    if k > 0 {
        let rest = outcomes.drop_first();
        assert forall|j: int| 0 <= j < k - 1 implies #[trigger] rest[j] == Ok::<bool, ActionError>(false) by {
            assert(rest[j] == outcomes[j + 1]);
        }
        lemma_chain_stops(rest, k - 1);
        assert(outcomes[0] == Ok::<bool, ActionError>(false));
    }
}

} // verus!
