//! The profile names found among the files of the profile directory, in
//! lexicographic order.
use crate::text::{chars_of, string_of, views};
use vstd::prelude::*;

verus! {

broadcast use vstd::seq_lib::group_to_multiset_ensures;

/// Lexicographic order on characters compared by code point: the order of
/// `String`'s `Ord`.
pub open spec fn lex_le(a: Seq<char>, b: Seq<char>) -> bool
    decreases a.len(),
{
    if a.len() == 0 {
        true
    } else if b.len() == 0 {
        false
    } else if a[0] != b[0] {
        a[0] < b[0]
    } else {
        lex_le(a.drop_first(), b.drop_first())
    }
}

pub open spec fn sorted(s: Seq<Seq<char>>) -> bool {
    forall|i: int, j: int| 0 <= i < j < s.len() ==> lex_le(#[trigger] s[i], #[trigger] s[j])
}

/// The profile named by a file name: what stands before a final `.json`,
/// when something does.
pub open spec fn profile_name_of(f: Seq<char>) -> Option<Seq<char>> {
    if f.len() > 5 && f.subrange(f.len() - 5, f.len() as int) == ".json"@ {
        Some(f.subrange(0, f.len() - 5))
    } else {
        None
    }
}

/// The profile names among `files`, in their order.
pub open spec fn names_in(files: Seq<Seq<char>>) -> Seq<Seq<char>>
    decreases files.len(),
{
    if files.len() == 0 {
        Seq::empty()
    } else {
        let p = names_in(files.drop_last());
        match profile_name_of(files.last()) {
            Some(n) => p.push(n),
            None => p,
        }
    }
}

pub open spec fn strs(v: Seq<String>) -> Seq<Seq<char>> {
    v.map_values(|s: String| s@)
}

pub proof fn lemma_lex_total(a: Seq<char>, b: Seq<char>)
    ensures
        lex_le(a, b) || lex_le(b, a),
    decreases a.len(),
{
    if a.len() > 0 && b.len() > 0 && a[0] == b[0] {
        lemma_lex_total(a.drop_first(), b.drop_first());
    }
}

pub proof fn lemma_lex_trans(a: Seq<char>, b: Seq<char>, c: Seq<char>)
    requires
        lex_le(a, b),
        lex_le(b, c),
    ensures
        lex_le(a, c),
    decreases a.len(),
{
    if a.len() > 0 && b.len() > 0 && c.len() > 0 && a[0] == b[0] && b[0] == c[0] {
        lemma_lex_trans(a.drop_first(), b.drop_first(), c.drop_first());
    }
}

fn lex_le_chars(a: &Vec<char>, b: &Vec<char>) -> (r: bool)
    ensures
        r == lex_le(a@, b@),
{
    let mut i: usize = 0;
    assert(a@.skip(0) =~= a@);
    assert(b@.skip(0) =~= b@);
    while i < a.len() && i < b.len() && a[i] == b[i]
        invariant
            i <= a.len(),
            i <= b.len(),
            lex_le(a@, b@) == lex_le(a@.skip(i as int), b@.skip(i as int)),
        decreases a.len() - i,
    {
        assert(a@.skip(i as int).drop_first() =~= a@.skip(i as int + 1));
        assert(b@.skip(i as int).drop_first() =~= b@.skip(i as int + 1));
        i = i + 1;
    }
    if i == a.len() {
        true
    } else if i == b.len() {
        false
    } else {
        a[i] < b[i]
    }
}

/// `v` in lexicographic order.
pub fn sort_names(v: &Vec<Vec<char>>) -> (r: Vec<Vec<char>>)
    ensures
        sorted(views(r@)),
        views(r@).to_multiset() == views(v@).to_multiset(),
{
    let mut r: Vec<Vec<char>> = Vec::new();
    let mut i: usize = 0;
    assert(views(v@).take(0) =~= Seq::<Seq<char>>::empty());
    assert(views(r@) =~= Seq::<Seq<char>>::empty());
    while i < v.len()
        invariant
            i <= v.len(),
            sorted(views(r@)),
            views(r@).to_multiset() == views(v@).take(i as int).to_multiset(),
        decreases v.len() - i,
    {
        let x = v[i].clone();
        let mut j: usize = 0;
        while j < r.len() && lex_le_chars(&r[j], &x)
            invariant
                j <= r.len(),
                forall|k: int| 0 <= k < j ==> lex_le(#[trigger] views(r@)[k], x@),
            decreases r.len() - j,
        {
            j = j + 1;
        }
        let ghost s = views(r@);
        proof {
            if j < r.len() {
                lemma_lex_total(s[j as int], x@);
                assert forall|k: int| j <= k < s.len() implies lex_le(x@, #[trigger] s[k]) by {
                    if k > j {
                        lemma_lex_trans(x@, s[j as int], s[k]);
                    }
                }
            }
        }
        r.insert(j, x);
        let ghost s2 = views(r@);
        assert(s2 =~= s.insert(j as int, x@));
        assert forall|a: int, b: int| 0 <= a < b < s2.len() implies lex_le(
            #[trigger] s2[a],
            #[trigger] s2[b],
        ) by {
            if a < j && b > j {
                lemma_lex_trans(s[a], x@, s[b - 1]);
            } else if a > j {
                assert(s2[a] == s[a - 1] && s2[b] == s[b - 1]);
            } else if b < j {
                assert(s2[a] == s[a] && s2[b] == s[b]);
            } else if a < j && b == j {
            } else {
                assert(s2[b] == s[b - 1]);
            }
        }
        proof {
            assert(s2.remove(j as int) =~= s);
            assert(s2[j as int] == x@);
            assert(s2.to_multiset().count(x@) > 0);
            assert(s2.to_multiset() =~= s.to_multiset().insert(x@));
            assert(views(v@).take(i as int + 1) =~= views(v@).take(i as int).push(x@));
        }
        i = i + 1;
    }
    assert(views(v@).take(v.len() as int) =~= views(v@));
    r
}

fn profile_name(f: &String) -> (r: Option<Vec<char>>)
    ensures
        match r {
            Some(n) => profile_name_of(f@) == Some(n@),
            None => profile_name_of(f@) is None,
        },
{
    let cs = chars_of(f.as_str());
    let ext = chars_of(".json");
    proof {
        reveal_strlit(".json");
    }
    assert(ext@.len() == 5);
    let n = cs.len();
    if n <= 5 {
        return None;
    }
    let mut k: usize = 0;
    while k < 5
        invariant
            k <= 5,
            n == cs.len() > 5,
            ext@ == ".json"@,
            ext@.len() == 5,
            cs@ == f@,
            forall|t: int| 0 <= t < k ==> cs@[n - 5 + t] == ext@[t],
        decreases 5 - k,
    {
        if cs[n - 5 + k] != ext[k] {
            assert(cs@.subrange(n - 5, n as int)[k as int] != ext@[k as int]);
            assert(cs@.subrange(n - 5, n as int) != ".json"@);
            return None;
        }
        k = k + 1;
    }
    assert(cs@.subrange(n - 5, n as int) =~= ext@);
    Some(crate::text::slice(&cs, 0, n - 5))
}

/// The names of the profiles among the file names of the profile directory,
/// sorted: one per file whose name ends in `.json` after at least one
/// character.
pub fn list_providers(file_names: &Vec<String>) -> (r: Vec<String>)
    ensures
        sorted(strs(r@)),
        strs(r@).to_multiset() == names_in(strs(file_names@)).to_multiset(),
{
    let mut found: Vec<Vec<char>> = Vec::new();
    let mut i: usize = 0;
    assert(strs(file_names@).take(0) =~= Seq::<Seq<char>>::empty());
    assert(views(found@) =~= Seq::<Seq<char>>::empty());
    while i < file_names.len()
        invariant
            i <= file_names.len(),
            views(found@) == names_in(strs(file_names@).take(i as int)),
        decreases file_names.len() - i,
    {
        let ghost t = strs(file_names@).take(i as int + 1);
        assert(t.drop_last() =~= strs(file_names@).take(i as int));
        match profile_name(&file_names[i]) {
            Some(n) => {
                let ghost before = views(found@);
                found.push(n);
                assert(views(found@) =~= before.push(n@));
            },
            None => {},
        }
        i = i + 1;
    }
    assert(strs(file_names@).take(file_names.len() as int) =~= strs(file_names@));
    let sorted_names = sort_names(&found);
    let mut r: Vec<String> = Vec::new();
    let mut k: usize = 0;
    while k < sorted_names.len()
        invariant
            k <= sorted_names.len(),
            strs(r@) == views(sorted_names@).take(k as int),
        decreases sorted_names.len() - k,
    {
        let ghost before = strs(r@);
        let name = string_of(&sorted_names[k]);
        r.push(name);
        assert(strs(r@) =~= before.push(name@));
        k = k + 1;
        assert(strs(r@) =~= views(sorted_names@).take(k as int));
    }
    assert(views(sorted_names@).take(k as int) =~= views(sorted_names@));
    r
}

} // verus!
