//! What is decided once, when the proxy starts.

use vstd::prelude::*;

verus! {

/// The private key among the keys that a key file holds: the file has to
/// hold exactly one. `None` where it holds none or several.
pub fn single_private_key(keys: Vec<Vec<u8>>) -> (key: Option<Vec<u8>>)
    ensures
        match key {
            Some(key) => keys@.len() == 1 && key@ == keys@[0]@,
            None => keys@.len() != 1,
        },
{
    let mut keys = keys;
    if keys.len() != 1 {
        return None;
    }
    keys.pop()
}

} // verus!
