//! Path handling for the disk storage backend that saves a player's shared
//! objects: building each object's file path and refusing paths that could
//! escape the storage directory.
//!
//! Paths are byte strings with `/` as the separator. The reads and writes
//! themselves are the shell's concern; only the path computation and the
//! escape check live here.

use vstd::prelude::*;

verus! {

/// Whether the path contains a `..` component, which could climb out of the
/// storage directory.
pub open spec fn has_parent_component(path: Seq<u8>) -> bool {
    exists|i: int|
        #![trigger path[i]]
        0 <= i && i + 2 <= path.len() && path[i] == 46 && path[i + 1] == 46 && (i == 0 || path[i
            - 1] == 47) && (i + 2 == path.len() || path[i + 2] == 47)
}

/// The suffix every stored object's file name carries.
pub open spec fn sol_extension() -> Seq<u8> {
    seq![46u8, 115u8, 111u8, 108u8]
}

/// The disk storage backend: it owns the directory its objects live under.
pub struct DiskStorageBackend {
    shared_objects_path: Vec<u8>,
}

impl View for DiskStorageBackend {
    type V = Seq<u8>;

    closed spec fn view(&self) -> Seq<u8> {
        self.shared_objects_path@
    }
}

impl DiskStorageBackend {
    /// A backend storing its objects under the given directory.
    pub fn new(shared_objects_path: Vec<u8>) -> (r: DiskStorageBackend)
        ensures
            r@ == shared_objects_path@,
    {
        DiskStorageBackend { shared_objects_path }
    }

    /// Verifies that the path contains no `..` component, to prevent access
    /// to files outside the storage directory.
    pub fn is_path_allowed(path: &Vec<u8>) -> (r: bool)
        ensures
            r == !has_parent_component(path@),
    {
        if path.len() < 2 {
            return true;
        }
        let mut i: usize = 0;
        while i <= path.len() - 2
            invariant
                path@.len() >= 2,
                0 <= i <= path@.len(),
                forall|j: int|
                    #![trigger path@[j]]
                    0 <= j < i ==> !(j + 2 <= path@.len() && path@[j] == 46 && path@[j + 1] == 46
                        && (j == 0 || path@[j - 1] == 47) && (j + 2 == path@.len() || path@[j + 2]
                        == 47)),
            decreases path@.len() - i,
        {
            if path[i] == 46 && path[i + 1] == 46 && (i == 0 || path[i - 1] == 47) && (i + 2
                == path.len() || path[i + 2] == 47) {
                assert(has_parent_component(path@));
                return false;
            }
            i = i + 1;
        }
        assert(!has_parent_component(path@));
        true
    }

    /// The file path an object of this name is stored at: the storage
    /// directory, a separator, the name, and the object extension.
    pub fn get_shared_object_path(&self, name: &Vec<u8>) -> (r: Vec<u8>)
        requires
            self@.len() + name@.len() + 5 <= usize::MAX,
        ensures
            r@ == self@ + seq![47u8] + name@ + sol_extension(),
    {
        let mut r = Vec::new();
        let mut i: usize = 0;
        while i < self.shared_objects_path.len()
            invariant
                0 <= i <= self@.len(),
                r@ == self@.subrange(0, i as int),
            decreases self@.len() - i,
        {
            r.push(self.shared_objects_path[i]);
            assert(r@ =~= self@.subrange(0, i + 1));
            i = i + 1;
        }
        assert(r@ =~= self@);
        r.push(47);
        let mut j: usize = 0;
        while j < name.len()
            invariant
                0 <= j <= name@.len(),
                r@ == self@ + seq![47u8] + name@.subrange(0, j as int),
            decreases name@.len() - j,
        {
            r.push(name[j]);
            assert(r@ =~= self@ + seq![47u8] + name@.subrange(0, j + 1));
            j = j + 1;
        }
        assert(r@ =~= self@ + seq![47u8] + name@);
        r.push(46);
        r.push(115);
        r.push(111);
        r.push(108);
        assert(r@ =~= self@ + seq![47u8] + name@ + sol_extension());
        r
    }

    /// The file path for an object of this name, or nothing when that path
    /// would escape the storage directory: every read, write or removal goes
    /// through this check first.
    pub fn allowed_object_path(&self, name: &Vec<u8>) -> (r: Option<Vec<u8>>)
        requires
            self@.len() + name@.len() + 5 <= usize::MAX,
        ensures
            ({
                let path = self@ + seq![47u8] + name@ + sol_extension();
                if has_parent_component(path) {
                    r is None
                } else {
                    r matches Some(p) && p@ == path
                }
            }),
    {
        let path = self.get_shared_object_path(name);
        if Self::is_path_allowed(&path) {
            Some(path)
        } else {
            None
        }
    }
}

} // verus!
