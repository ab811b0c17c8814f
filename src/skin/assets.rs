use vstd::prelude::*;
use vstd::string::StringExecFns;
use crate::image::Image;
use crate::skin::types::{Skin, SkinWindow};

verus! {

/// A skin together with its decoded images, by asset key.
pub struct LoadedSkin {
    pub skin: Skin,
    images: Vec<(String, Image)>,
}

impl LoadedSkin {
    /// Every image is a whole raster.
    pub closed spec fn wf(&self) -> bool {
        &&& forall|i: int| 0 <= i < self.images@.len() ==> (#[trigger] self.images@[i]).1.wf()
        &&& forall|i: int, j: int|
            0 <= i < j < self.images@.len() ==> self.images@[i].0@ != self.images@[j].0@
    }

    /// The image held under `key` (meaningful when `has_image(key)`).
    pub closed spec fn image_of(&self, key: Seq<char>) -> Image {
        self.images@[choose|i: int| 0 <= i < self.images@.len() && self.images@[i].0@ == key].1
    }

    pub closed spec fn skin_spec(&self) -> Skin {
        self.skin
    }

    /// Some image is held under `key`.
    pub closed spec fn has_image(&self, key: Seq<char>) -> bool {
        exists|i: int| 0 <= i < self.images@.len() && (#[trigger] self.images@[i]).0@ == key
    }

    pub fn new(skin: Skin, images: Vec<(String, Image)>) -> (r: Self)
        requires
            forall|i: int| 0 <= i < images@.len() ==> (#[trigger] images@[i]).1.wf(),
            forall|i: int, j: int| 0 <= i < j < images@.len() ==> images@[i].0@ != images@[j].0@,
        ensures
            r.wf(),
            r.skin_spec() == skin,
            forall|k: Seq<char>|
                r.has_image(k) <==> exists|i: int|
                    0 <= i < images@.len() && (#[trigger] images@[i]).0@ == k,
    {
        let r = LoadedSkin { skin, images };
        assert forall|k: Seq<char>|
            r.has_image(k) <==> exists|i: int|
                0 <= i < images@.len() && (#[trigger] images@[i]).0@ == k by {
            if r.has_image(k) {
                let i = choose|i: int| 0 <= i < r.images@.len() && (#[trigger] r.images@[i]).0@ == k;
                assert(images@[i].0@ == k);
            }
            if exists|i: int| 0 <= i < images@.len() && (#[trigger] images@[i]).0@ == k {
                let i = choose|i: int| 0 <= i < images@.len() && (#[trigger] images@[i]).0@ == k;
                assert(r.images@[i].0@ == k);
            }
        }
        r
    }

    pub fn window(&self) -> (r: &SkinWindow)
        ensures
            *r == self.skin_spec().window,
    {
        &self.skin.window
    }

    pub fn parts(&self) -> (r: &Vec<crate::skin::types::SkinPart>)
        ensures
            *r == self.skin_spec().parts,
    {
        &self.skin.parts
    }

    /// The image under `key`.
    pub fn get_image(&self, key: &str) -> (r: Option<&Image>)
        requires
            self.wf(),
        ensures
            match r {
                Some(img) => self.has_image(key@) && img.wf() && *img == self.image_of(key@),
                None => !self.has_image(key@),
            },
    {
        let mut i: usize = 0;
        while i < self.images.len()
            invariant
                self.wf(),
                0 <= i <= self.images@.len(),
                forall|j: int| 0 <= j < i ==> (#[trigger] self.images@[j]).0@ != key@,
            decreases self.images@.len() - i,
        {
            if str_eq(self.images[i].0.as_str(), key) {
                assert(self.images@[i as int].1.wf());
                let ghost j = choose|j: int| 0 <= j < self.images@.len() && self.images@[j].0@ == key@;
                assert(self.images@[i as int].0@ == key@);
                assert(j == i as int);
                return Some(&self.images[i].1);
            }
            i += 1;
        }
        None
    }
}

/// Whether two strings hold the same characters.
pub fn str_eq(a: &str, b: &str) -> (r: bool)
    ensures
        r == (a@ == b@),
{
    let x = String::from_str(a);
    let y = String::from_str(b);
    x == y
}

} // verus!
