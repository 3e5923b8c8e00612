//! How a price is found in a JSON answer: properties of the path walk.
use vstd::prelude::*;
use crate::new_oracle::{chars_to_bytes, walk, Error, JsonValue};

verus! {

proof fn lemma_walk_shift(j: JsonValue, q: Seq<Seq<u8>>, p: Seq<Seq<u8>>, i: int)
    requires
        0 <= i,
    ensures
        walk(j, q + p, q.len() + i) == walk(j, p, i),
    decreases p.len() - i,
{
    if i < p.len() {
        assert((q + p)[q.len() + i] == p[i]);
        match j {
            JsonValue::Object(v) => {
                match crate::new_oracle::first_member(v@, p[i]) {
                    Some(k) => lemma_walk_shift(v@[k].1, q, p, i + 1),
                    None => {},
                }
            },
            _ => {},
        }
    }
}

proof fn lemma_walk_compose(j: JsonValue, p1: Seq<Seq<u8>>, p2: Seq<Seq<u8>>, i: int)
    requires
        0 <= i <= p1.len(),
    ensures
        walk(j, p1 + p2, i) == match walk(j, p1, i) {
            Ok(v) => walk(v, p2, 0),
            Err(e) => Err(e),
        },
    decreases p1.len() - i,
{
    if i == p1.len() {
        lemma_walk_shift(j, p1, p2, 0);
    } else {
        assert((p1 + p2)[i] == p1[i]);
        match j {
            JsonValue::Object(v) => {
                match crate::new_oracle::first_member(v@, p1[i]) {
                    Some(k) => lemma_walk_compose(v@[k].1, p1, p2, i + 1),
                    None => {},
                }
            },
            _ => {},
        }
    }
}

/// Following a path and then another is following the two joined: the first error
/// met is the answer, else the second path is followed from where the first led.
pub proof fn law_path_walk_composes(j: JsonValue, p1: Seq<Seq<u8>>, p2: Seq<Seq<u8>>)
    ensures
        walk(j, p1 + p2, 0) == match walk(j, p1, 0) {
            Ok(v) => walk(v, p2, 0),
            Err(e) => Err(e),
        },
{
    lemma_walk_compose(j, p1, p2, 0);
}

/// One step of a path: the empty path leads to the value itself; a step from anything but
/// an object is refused with `NotAnObject`; from an object it leads to the value of the
/// first member whose name, cut to bytes, is the step, and is refused with `FieldMissing`
/// where no member has that name.
pub proof fn law_path_step(j: JsonValue, f: Seq<u8>)
    ensures
        walk(j, Seq::empty(), 0) == Ok::<JsonValue, Error>(j),
        !(j is Object) ==> walk(j, seq![f], 0) == Err::<JsonValue, Error>(Error::NotAnObject),
        j is Object ==> {
            let m = j->Object_0@;
            &&& (forall|i: int| 0 <= i < m.len() ==> chars_to_bytes(#[trigger] m[i].0@) != f)
                ==> walk(j, seq![f], 0) == Err::<JsonValue, Error>(Error::FieldMissing)
            &&& forall|k: int| 0 <= k < m.len() && chars_to_bytes(#[trigger] m[k].0@) == f
                && (forall|i: int| 0 <= i < k ==> chars_to_bytes(m[i].0@) != f)
                ==> walk(j, seq![f], 0) == Ok::<JsonValue, Error>(m[k].1)
        },
{
    if j is Object {
        let m = j->Object_0@;
        assert forall|k: int| 0 <= k < m.len() && chars_to_bytes(#[trigger] m[k].0@) == f
            && (forall|i: int| 0 <= i < k ==> chars_to_bytes(m[i].0@) != f)
            implies walk(j, seq![f], 0) == Ok::<JsonValue, Error>(m[k].1) by {
            assert(0 <= k < m.len() && chars_to_bytes(m[k].0@) == f
                && forall|i: int| 0 <= i < k ==> chars_to_bytes(m[i].0@) != f);
            let c = crate::new_oracle::first_member(m, f)->Some_0;
            assert(0 <= c < m.len() && chars_to_bytes(m[c].0@) == f
                && forall|i: int| 0 <= i < c ==> chars_to_bytes(m[i].0@) != f);
            assert(seq![f][0] == f);
            if c < k {
                assert(chars_to_bytes(m[c].0@) != f);
            } else if c > k {
                assert(chars_to_bytes(m[k].0@) != f);
            }
            assert(walk(m[c].1, seq![f], 1) == Ok::<JsonValue, Error>(m[c].1));
        }
        assert(seq![f][0] == f);
    }
}

} // verus!
