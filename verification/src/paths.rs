use vstd::prelude::*;

use vstd::slice::slice_to_vec;

verus! {

/// `p` with any trailing `/` separators removed.
pub open spec fn strip_trailing_slashes(p: Seq<u8>) -> Seq<u8>
    decreases p.len(),
{
    if p.len() > 0 && p.last() == 47u8 {
        strip_trailing_slashes(p.drop_last())
    } else {
        p
    }
}

/// The bytes after the last `/` separator.
pub open spec fn last_component(p: Seq<u8>) -> Seq<u8>
    decreases p.len(),
{
    if p.len() == 0 {
        Seq::empty()
    } else if p.last() == 47u8 {
        Seq::empty()
    } else {
        last_component(p.drop_last()).push(p.last())
    }
}

/// Whether a dot occurs anywhere after the first byte of a file name.
pub open spec fn has_dot_after_first(name: Seq<u8>) -> bool {
    exists|i: int| 1 <= i < name.len() && name[i] == 46u8
}

/// `name` without its final extension: everything before the last dot. A name
/// whose only dot is its leading byte keeps itself whole.
pub open spec fn strip_extension(name: Seq<u8>) -> Seq<u8>
    decreases name.len(),
{
    if !has_dot_after_first(name) {
        name
    } else if name.last() == 46u8 {
        name.drop_last()
    } else {
        strip_extension(name.drop_last())
    }
}

/// The file stem a path yields: its last component, trailing separators
/// ignored and the final extension stripped; `None` where the path carries no
/// usable file name.
pub open spec fn file_stem_spec(path: Seq<u8>) -> Option<Seq<u8>> {
    let name = last_component(strip_trailing_slashes(path));
    if name.len() == 0 || name == seq![46u8] || name == seq![46u8, 46u8] {
        None
    } else {
        Some(strip_extension(name))
    }
}

/// The temporary archive's name: the stem followed by `_temp`.
pub open spec fn temp_archive_name(stem: Seq<u8>) -> Seq<u8> {
    stem + seq![95u8, 116u8, 101u8, 109u8, 112u8]
}

/// The encrypted artifact's name: the stem followed by `.waba`.
pub open spec fn encrypted_name(stem: Seq<u8>) -> Seq<u8> {
    stem + seq![46u8, 119u8, 97u8, 98u8, 97u8]
}

proof fn lemma_last_component_from_index(s: Seq<u8>, a: int)
    requires
        0 <= a <= s.len(),
        forall|j: int| a <= j < s.len() ==> s[j] != 47u8,
        a == 0 || s[a - 1] == 47u8,
    ensures
        last_component(s) == s.skip(a),
    decreases s.len(),
{
    if a == s.len() {
        if s.len() == 0 {
            assert(s.skip(a) =~= Seq::<u8>::empty());
        } else {
            assert(s.last() == 47u8);
            assert(s.skip(a) =~= Seq::<u8>::empty());
        }
    } else {
        assert(s[s.len() - 1] != 47u8);
        lemma_last_component_from_index(s.drop_last(), a);
        assert(s.drop_last().skip(a).push(s.last()) =~= s.skip(a));
    }
}

proof fn lemma_strip_extension_at(name: Seq<u8>, d: int)
    requires
        1 <= d < name.len(),
        name[d] == 46u8,
        forall|j: int| d < j < name.len() ==> name[j] != 46u8,
    ensures
        strip_extension(name) == name.take(d),
    decreases name.len(),
{
    assert(has_dot_after_first(name));
    if d == name.len() - 1 {
        assert(name.last() == 46u8);
        assert(name.drop_last() =~= name.take(d));
    } else {
        assert(name.last() != 46u8);
        assert(name.drop_last()[d] == 46u8);
        lemma_strip_extension_at(name.drop_last(), d);
        assert(name.drop_last().take(d) =~= name.take(d));
    }
}

/// Computes the file stem that artifact names are derived from, matching
/// `file_stem_spec` exactly.
pub fn file_stem_of(path: &[u8]) -> (r: Option<Vec<u8>>)
    ensures
        r matches Some(stem) ==> file_stem_spec(path@) == Some(stem@),
        r is None ==> file_stem_spec(path@) is None,
{
    let mut end: usize = path.len();
    proof {
        assert(path@.take(path@.len() as int) =~= path@);
    }
    while end > 0 && path[end - 1] == 47
        invariant
            end <= path@.len(),
            strip_trailing_slashes(path@) == strip_trailing_slashes(path@.take(end as int)),
        decreases end,
    {
        proof {
            assert(path@.take(end as int).last() == 47u8);
            assert(path@.take(end as int).drop_last() =~= path@.take(end - 1));
        }
        end = end - 1;
    }
    proof {
        if end == 0 {
            assert(path@.take(0) =~= Seq::<u8>::empty());
        }
        assert(strip_trailing_slashes(path@) == path@.take(end as int));
    }
    let mut start: usize = end;
    while start > 0 && path[start - 1] != 47
        invariant
            start <= end,
            end <= path@.len(),
            forall|j: int| start <= j < end ==> path@[j] != 47u8,
        decreases start,
    {
        start = start - 1;
    }
    let name = &path[start..end];
    proof {
        lemma_last_component_from_index(path@.take(end as int), start as int);
        assert(path@.take(end as int).skip(start as int) =~= name@);
        assert(last_component(strip_trailing_slashes(path@)) == name@);
    }
    if name.len() == 0 {
        return None;
    }
    if name.len() == 1 && name[0] == 46 {
        proof {
            assert(name@ =~= seq![46u8]);
        }
        return None;
    }
    if name.len() == 2 && name[0] == 46 && name[1] == 46 {
        proof {
            assert(name@ =~= seq![46u8, 46u8]);
        }
        return None;
    }
    proof {
        assert(name@ != seq![46u8] && name@ != seq![46u8, 46u8]) by {
            if name@ == seq![46u8] {
                assert(name@.len() == 1 && name@[0] == 46u8);
            }
            if name@ == seq![46u8, 46u8] {
                assert(name@.len() == 2 && name@[0] == 46u8 && name@[1] == 46u8);
            }
        }
    }
    let mut j: usize = name.len();
    while j > 1 && name[j - 1] != 46
        invariant
            1 <= j <= name@.len(),
            forall|t: int| j <= t < name@.len() ==> name@[t] != 46u8,
        decreases j,
    {
        j = j - 1;
    }
    if j > 1 {
        proof {
            lemma_strip_extension_at(name@, j - 1);
        }
        let stem = &name[0..j - 1];
        proof {
            assert(stem@ =~= name@.take(j - 1));
        }
        Some(slice_to_vec(stem))
    } else {
        proof {
            assert(!has_dot_after_first(name@));
        }
        Some(slice_to_vec(name))
    }
}

/// Appends `_temp` to a stem, matching `temp_archive_name`.
pub fn temp_archive_name_of(stem: &[u8]) -> (r: Vec<u8>)
    ensures
        r@ == temp_archive_name(stem@),
{
    let mut v = slice_to_vec(stem);
    v.push(95);
    v.push(116);
    v.push(101);
    v.push(109);
    v.push(112);
    proof {
        assert(v@ =~= temp_archive_name(stem@));
    }
    v
}

/// Appends `.waba` to a stem, matching `encrypted_name`.
pub fn encrypted_name_of(stem: &[u8]) -> (r: Vec<u8>)
    ensures
        r@ == encrypted_name(stem@),
{
    let mut v = slice_to_vec(stem);
    v.push(46);
    v.push(119);
    v.push(97);
    v.push(98);
    v.push(97);
    proof {
        assert(v@ =~= encrypted_name(stem@));
    }
    v
}

} // verus!
