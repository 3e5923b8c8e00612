//! Derivation of receiving keys from key material along a path of components.
use vstd::prelude::*;

verus! {

/// What `hkd32::KeyMaterial::derive_subkey` returns for the material and the path made of
/// the components.
pub uninterp spec fn spec_hkd32_derive(material: Seq<u8>, components: Seq<Seq<u8>>) -> Seq<u8>;

/// A component that `hkd32::Component::new` accepts: one to 256 bytes.
pub open spec fn valid_component(c: Seq<u8>) -> bool {
    1 <= c.len() <= 256
}

/// `hkd32::DELIMITER`, the character that separates the components of a path: `'/'`.
#[verifier::external_body]
pub(crate) fn path_delimiter() -> (c: char)
    ensures
        c == '/',
{
    hkd32::DELIMITER
}

/// `hkd32::KeyMaterial::new(material).derive_subkey(path)` over the path made of the
/// components in order, its 32 bytes copied out. The contract names the result.
#[verifier::external_body]
pub(crate) fn derive_subkey(material: [u8; 32], components: &Vec<Vec<u8>>) -> (r: [u8; 32])
    requires
        forall|i: int| 0 <= i < components@.len() ==> valid_component(#[trigger] components@[i]@),
    ensures
        r@ == spec_hkd32_derive(material@, components@.map_values(|c: Vec<u8>| c@)),
{
    let mut path = hkd32::PathBuf::new();
    for c in components.iter() {
        path.push(hkd32::Component::new(c).unwrap());
    }
    let key = hkd32::KeyMaterial::new(material).derive_subkey(path);
    let mut out = [0u8; 32];
    out.copy_from_slice(key.as_bytes());
    out
}

/// The pieces of `s` between occurrences of `d`, as `<[u8]>::split` yields them: one more
/// piece than there are delimiters, empty pieces included.
pub open spec fn split_on(s: Seq<u8>, d: u8) -> Seq<Seq<u8>>
    decreases s.len(),
{
    if s.len() == 0 {
        seq![Seq::<u8>::empty()]
    } else {
        let prev = split_on(s.drop_last(), d);
        if s.last() == d {
            prev.push(Seq::<u8>::empty())
        } else {
            prev.update(prev.len() - 1, prev.last().push(s.last()))
        }
    }
}

pub proof fn lemma_split_on_nonempty(s: Seq<u8>, d: u8)
    ensures
        split_on(s, d).len() >= 1,
    decreases s.len(),
{
    if s.len() > 0 {
        lemma_split_on_nonempty(s.drop_last(), d);
    }
}

/// Splits `s` at every `d`.
pub fn split_bytes(s: &Vec<u8>, d: u8) -> (r: Vec<Vec<u8>>)
    ensures
        r@.map_values(|c: Vec<u8>| c@) == split_on(s@, d),
{
    let mut pieces: Vec<Vec<u8>> = Vec::new();
    let mut cur: Vec<u8> = Vec::new();
    let mut i: usize = 0;
    while i < s.len()
        invariant
            i <= s@.len(),
            pieces@.map_values(|c: Vec<u8>| c@).push(cur@) == split_on(s@.subrange(0, i as int), d),
        decreases s@.len() - i,
    {
        let ghost prev = split_on(s@.subrange(0, i as int), d);
        assert(s@.subrange(0, i + 1).drop_last() =~= s@.subrange(0, i as int));
        proof {
            lemma_split_on_nonempty(s@.subrange(0, i as int), d);
        }
        if s[i] == d {
            let done = cur;
            pieces.push(done);
            cur = Vec::new();
            assert(pieces@.map_values(|c: Vec<u8>| c@).push(cur@) =~= prev.push(Seq::<u8>::empty()));
        } else {
            let ghost old_pieces = pieces@.map_values(|c: Vec<u8>| c@);
            cur.push(s[i]);
            assert(pieces@.map_values(|c: Vec<u8>| c@).push(cur@) =~= prev.update(prev.len() - 1, prev.last().push(s@[i as int])));
        }
        i = i + 1;
    }
    assert(s@.subrange(0, s@.len() as int) =~= s@);
    pieces.push(cur);
    pieces
}

} // verus!
