//! The block-entity payload of a lobby sign, reduced to the tree shape
//! the scan reads: named compounds, lists, and decoded text leaves.
//!
//! A sign stores its front text under `front_text.messages[0]`. A
//! payload missing any link of that chain is malformed and the scan
//! skips it silently.

use vstd::prelude::*;

verus! {

/// A block-entity data tree.
pub enum Nbt {
    /// Named fields, in order; a lookup takes the first match.
    Compound(Vec<(String, Nbt)>),
    List(Vec<Nbt>),
    /// A decoded text payload.
    Str(String),
    /// Any other payload the scan does not read.
    Other,
}

/// The first field named `key`, if any.
pub open spec fn spec_compound_get(fields: Seq<(String, Nbt)>, key: Seq<char>) -> Option<
    Nbt,
>
    decreases fields.len(),
{
    if fields.len() == 0 {
        None
    } else if fields[0].0@ == key {
        Some(fields[0].1)
    } else {
        spec_compound_get(fields.drop_first(), key)
    }
}

/// The front text of a sign payload: the first message under the
/// `front_text` compound, when every link of the chain has the
/// expected shape.
pub open spec fn spec_extract_text(n: Nbt) -> Option<Seq<char>> {
    match n {
        Nbt::Compound(fields) => match spec_compound_get(fields@, "front_text"@) {
            Some(Nbt::Compound(inner)) => match spec_compound_get(inner@, "messages"@) {
                Some(Nbt::List(items)) => if items@.len() > 0 {
                    match items@[0] {
                        Nbt::Str(s) => Some(s@),
                        _ => None,
                    }
                } else {
                    None
                },
                _ => None,
            },
            _ => None,
        },
        _ => None,
    }
}

/// Looks up the first field named `key` in a compound's field list.
fn compound_get<'a>(fields: &'a Vec<(String, Nbt)>, key: &String) -> (r: Option<&'a Nbt>)
    ensures
        match r {
            Some(n) => spec_compound_get(fields@, key@) == Some(*n),
            None => spec_compound_get(fields@, key@) is None,
        },
{
    let n = fields.len();
    let mut i: usize = 0;
    proof {
        assert(fields@.skip(0) =~= fields@);
    }
    while i < n
        invariant
            n == fields@.len(),
            0 <= i <= n,
            spec_compound_get(fields@, key@) == spec_compound_get(
                fields@.skip(i as int),
                key@,
            ),
        decreases n - i,
    {
        proof {
            assert(fields@.skip(i as int)[0] == fields@[i as int]);
            assert(fields@.skip(i as int).drop_first() =~= fields@.skip(i + 1));
        }
        if fields[i].0 == *key {
            return Some(&fields[i].1);
        }
        i = i + 1;
    }
    proof {
        assert(fields@.skip(n as int) =~= Seq::<(String, Nbt)>::empty());
    }
    None
}

/// Reads the front text out of a sign's payload, or nothing when the
/// payload is malformed. A malformed payload never aborts the scan;
/// the caller skips the sign.
pub fn extract_text_from_sign_nbt(n: &Nbt) -> (r: Option<String>)
    ensures
        match r {
            Some(s) => spec_extract_text(*n) == Some(s@),
            None => spec_extract_text(*n) is None,
        },
{
    let front_key: String = "front_text".to_owned();
    let messages_key: String = "messages".to_owned();
    match n {
        Nbt::Compound(fields) => match compound_get(fields, &front_key) {
            Some(Nbt::Compound(inner)) => match compound_get(inner, &messages_key) {
                Some(Nbt::List(items)) => {
                    if items.len() > 0 {
                        match &items[0] {
                            Nbt::Str(s) => Some(s.clone()),
                            _ => None,
                        }
                    } else {
                        None
                    }
                },
                _ => None,
            },
            _ => None,
        },
        _ => None,
    }
}

} // verus!
