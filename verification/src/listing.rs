//! Which entries of a folder are offered, and in what order: image files only,
//! sorted case-insensitively by file name, equal names keeping their order.
use vstd::prelude::*;
use crate::paths::{
    ascii_lower_seq, file_name, file_name_chars, is_image, is_image_ext, lower_chars, spec_ext_of,
};

verus! {

/// Lexicographic order on texts, character by character (by code point).
pub open spec fn text_le(a: Seq<char>, b: Seq<char>) -> bool
    decreases a.len(),
{
    if a.len() == 0 {
        true
    } else if b.len() == 0 {
        false
    } else if a[0] == b[0] {
        text_le(a.drop_first(), b.drop_first())
    } else {
        (a[0] as int) < (b[0] as int)
    }
}

/// Order on sort keys: no name first, then names in text order.
pub open spec fn key_le(a: Option<Seq<char>>, b: Option<Seq<char>>) -> bool {
    match (a, b) {
        (None, _) => true,
        (Some(_), None) => false,
        (Some(x), Some(y)) => text_le(x, y),
    }
}

/// The key a path is sorted by: its file name with ASCII letters lower-cased.
pub open spec fn sort_key(path: Seq<char>) -> Option<Seq<char>> {
    match file_name(path) {
        Some(n) => Some(ascii_lower_seq(n)),
        None => None,
    }
}

/// The order ignores ASCII case: two paths whose file names differ only in the
/// case of their letters get the same key, so they sort together (in listing
/// order); and a key holds no upper-case ASCII letter.
pub proof fn lemma_sort_key_ignores_case(p: Seq<char>, q: Seq<char>)
    ensures
        file_name(p) is Some && file_name(q) is Some && ascii_lower_seq(file_name(p)->0)
            == ascii_lower_seq(file_name(q)->0) ==> sort_key(p) == sort_key(q),
        sort_key(p) matches Some(k) ==> forall|i: int|
            0 <= i < k.len() ==> !('A' <= #[trigger] k[i] <= 'Z'),
{
}

pub open spec fn entry_key<P>(e: (P, String)) -> Option<Seq<char>> {
    sort_key(e.1@)
}

/// Whether an entry (a path and its text) names an image file.
pub open spec fn is_image_entry<P>(e: (P, String)) -> bool {
    is_image_ext(spec_ext_of(e.1@))
}

/// The image entries of a listing, in their original order.
pub open spec fn image_entries<P>(entries: Seq<(P, String)>) -> Seq<(P, String)> {
    entries.filter(|e: (P, String)| is_image_entry(e))
}

/// `perm` lists each of `0..n` exactly once.
pub open spec fn is_permutation(perm: Seq<int>, n: nat) -> bool {
    &&& perm.len() == n
    &&& forall|i: int| 0 <= i < n ==> 0 <= #[trigger] perm[i] < n
    &&& forall|i: int, j: int| 0 <= i < j < n ==> perm[i] != perm[j]
}

/// `out` is `src` rearranged by `perm` (`out[i]` is `src[perm[i]]`), sorted by
/// key, with entries of equal key in their order in `src`.
pub open spec fn is_stable_sort_of<P>(
    out: Seq<(P, String)>,
    src: Seq<(P, String)>,
    perm: Seq<int>,
) -> bool {
    &&& out.len() == src.len()
    &&& is_permutation(perm, src.len())
    &&& forall|i: int| 0 <= i < out.len() ==> #[trigger] out[i] == src[perm[i]]
    &&& forall|i: int, j: int|
        0 <= i < j < out.len() ==> key_le(entry_key(#[trigger] out[i]), entry_key(#[trigger] out[j]))
    &&& forall|i: int, j: int|
        0 <= i < j < out.len() && key_le(entry_key(#[trigger] out[j]), entry_key(#[trigger] out[i]))
            ==> perm[i] < perm[j]
}

/// Every pair of texts is ordered one way or the other.
pub proof fn lemma_text_le_total(a: Seq<char>, b: Seq<char>)
    ensures
        text_le(a, b) || text_le(b, a),
    decreases a.len(),
{
    if a.len() > 0 && b.len() > 0 {
        if a[0] == b[0] {
            lemma_text_le_total(a.drop_first(), b.drop_first());
        } else {
        }
    }
}

/// The text order is transitive.
pub proof fn lemma_text_le_transitive(a: Seq<char>, b: Seq<char>, c: Seq<char>)
    requires
        text_le(a, b),
        text_le(b, c),
    ensures
        text_le(a, c),
    decreases a.len(),
{
    if a.len() > 0 && b.len() > 0 && c.len() > 0 && a[0] == b[0] && b[0] == c[0] {
        lemma_text_le_transitive(a.drop_first(), b.drop_first(), c.drop_first());
    }
}

pub proof fn lemma_key_le_total(a: Option<Seq<char>>, b: Option<Seq<char>>)
    ensures
        key_le(a, b) || key_le(b, a),
{
    if let (Some(x), Some(y)) = (a, b) {
        lemma_text_le_total(x, y);
    }
}

pub proof fn lemma_key_le_transitive(
    a: Option<Seq<char>>,
    b: Option<Seq<char>>,
    c: Option<Seq<char>>,
)
    requires
        key_le(a, b),
        key_le(b, c),
    ensures
        key_le(a, c),
{
    if let (Some(x), Some(y), Some(z)) = (a, b, c) {
        lemma_text_le_transitive(x, y, z);
    }
}

pub open spec fn key_view(k: Option<Vec<char>>) -> Option<Seq<char>> {
    match k {
        Some(v) => Some(v@),
        None => None,
    }
}

fn text_le_exec(a: &Vec<char>, b: &Vec<char>) -> (r: bool)
    ensures
        r == text_le(a@, b@),
{
    let mut i: usize = 0;
    assert(a@.subrange(0, a@.len() as int) =~= a@);
    assert(b@.subrange(0, b@.len() as int) =~= b@);
    while i < a.len() && i < b.len() && a[i] == b[i]
        invariant
            i <= a.len(),
            i <= b.len(),
            text_le(a@, b@) == text_le(a@.subrange(i as int, a@.len() as int), b@.subrange(i as int, b@.len() as int)),
        decreases a.len() - i,
    {
        let ghost sa = a@.subrange(i as int, a@.len() as int);
        let ghost sb = b@.subrange(i as int, b@.len() as int);
        assert(sa.drop_first() =~= a@.subrange(i + 1, a@.len() as int));
        assert(sb.drop_first() =~= b@.subrange(i + 1, b@.len() as int));
        i = i + 1;
    }
    let ghost sa = a@.subrange(i as int, a@.len() as int);
    let ghost sb = b@.subrange(i as int, b@.len() as int);
    if i == a.len() {
        assert(sa.len() == 0);
        true
    } else if i == b.len() {
        assert(sb.len() == 0 && sa.len() > 0);
        false
    } else {
        assert(sa[0] == a@[i as int] && sb[0] == b@[i as int]);
        a[i] < b[i]
    }
}

fn key_le_exec(a: &Option<Vec<char>>, b: &Option<Vec<char>>) -> (r: bool)
    ensures
        r == key_le(key_view(*a), key_view(*b)),
{
    match (a, b) {
        (None, _) => true,
        (Some(_), None) => false,
        (Some(x), Some(y)) => text_le_exec(x, y),
    }
}

/// The sort key of `path`, computed.
pub fn key_of(path: &str) -> (r: Option<Vec<char>>)
    ensures
        key_view(r) == sort_key(path@),
{
    match file_name_chars(path) {
        Some(n) => Some(lower_chars(&n)),
        None => None,
    }
}

/// Inserts `x` (with key `k`) into the sorted `out` after every entry whose key
/// is not greater than `k`.
fn insert_sorted<P>(
    out: &mut Vec<(P, String)>,
    keys: &mut Vec<Option<Vec<char>>>,
    x: (P, String),
    k: Option<Vec<char>>,
    Ghost(src): Ghost<Seq<(P, String)>>,
    Ghost(perm): Ghost<Seq<int>>,
) -> (new_perm: Ghost<Seq<int>>)
    requires
        key_view(k) == entry_key(x),
        old(keys).len() == old(out).len(),
        forall|i: int| 0 <= i < old(out).len() ==> key_view(#[trigger] old(keys)@[i]) == entry_key(
            old(out)@[i],
        ),
        is_stable_sort_of(old(out)@, src, perm),
    ensures
        final(keys).len() == final(out).len(),
        forall|i: int| 0 <= i < final(out).len() ==> key_view(#[trigger] final(keys)@[i]) == entry_key(
            final(out)@[i],
        ),
        is_stable_sort_of(final(out)@, src.push(x), new_perm@),
{
    let n = out.len();
    let mut pos: usize = n;
    while pos > 0 && !key_le_exec(&keys[pos - 1], &k)
        invariant
            pos <= n == out.len() == keys.len(),
            key_view(k) == entry_key(x),
            forall|j: int| pos <= j < n ==> !key_le(#[trigger] entry_key(out@[j]), entry_key(x)),
            forall|i: int| 0 <= i < out.len() ==> key_view(#[trigger] keys@[i]) == entry_key(out@[i]),
        decreases pos,
    {
        assert(key_view(keys@[pos - 1]) == entry_key(out@[pos - 1]));
        pos = pos - 1;
    }
    let ghost old_out = out@;
    let ghost np = perm.insert(pos as int, n as int);
    out.insert(pos, x);
    keys.insert(pos, k);
    proof {
        let o = out@;
        let s2 = src.push(x);
        assert forall|i: int| 0 <= i < o.len() implies #[trigger] o[i] == s2[np[i]] by {
            if i < pos {
                assert(o[i] == old_out[i]);
            } else if i > pos {
                assert(o[i] == old_out[i - 1]);
            }
        }
        assert forall|i: int, j: int| 0 <= i < j < o.len() implies key_le(
            entry_key(#[trigger] o[i]),
            entry_key(#[trigger] o[j]),
        ) by {
            if j < pos {
                assert(o[i] == old_out[i] && o[j] == old_out[j]);
            } else if i > pos {
                assert(o[i] == old_out[i - 1] && o[j] == old_out[j - 1]);
            } else if j == pos {
                assert(o[i] == old_out[i]);
                assert(key_le(entry_key(old_out[pos - 1]), entry_key(x)));
                if i < pos - 1 {
                    lemma_key_le_transitive(
                        entry_key(old_out[i]),
                        entry_key(old_out[pos - 1]),
                        entry_key(x),
                    );
                }
            } else if i == pos {
                assert(o[j] == old_out[j - 1]);
                lemma_key_le_total(entry_key(old_out[j - 1]), entry_key(x));
            } else {
                // i < pos < j
                assert(o[i] == old_out[i] && o[j] == old_out[j - 1]);
                lemma_key_le_total(entry_key(old_out[j - 1]), entry_key(x));
                assert(key_le(entry_key(x), entry_key(old_out[j - 1])));
                if pos > 0 {
                    assert(key_le(entry_key(old_out[pos - 1]), entry_key(x)));
                    if i < pos - 1 {
                        lemma_key_le_transitive(
                            entry_key(old_out[i]),
                            entry_key(old_out[pos - 1]),
                            entry_key(x),
                        );
                    }
                    lemma_key_le_transitive(
                        entry_key(old_out[i]),
                        entry_key(x),
                        entry_key(old_out[j - 1]),
                    );
                }
            }
        }
        assert forall|i: int, j: int|
            0 <= i < j < o.len() && key_le(entry_key(#[trigger] o[j]), entry_key(#[trigger] o[i]))
            implies np[i] < np[j] by {
            if j < pos {
                assert(o[i] == old_out[i] && o[j] == old_out[j]);
            } else if i > pos {
                assert(o[i] == old_out[i - 1] && o[j] == old_out[j - 1]);
            } else if j == pos {
                assert(np[j] == n);
            } else if i == pos {
                assert(o[j] == old_out[j - 1]);
                assert(!key_le(entry_key(old_out[j - 1]), entry_key(x)));
            } else {
                assert(o[i] == old_out[i] && o[j] == old_out[j - 1]);
            }
        }
        assert forall|i: int, j: int| 0 <= i < j < np.len() implies np[i] != np[j] by {
            if j < pos {
            } else if i > pos {
            } else if i == pos || j == pos {
            } else {
            }
        }
        assert forall|i: int| 0 <= i < np.len() implies 0 <= #[trigger] np[i] < np.len() by {
            if i < pos {
            } else if i > pos {
            }
        }
    }
    Ghost(np)
}

/// The image files of a folder listing, in the order the viewer shows them:
/// entries whose text names an image file, sorted by lower-cased file name,
/// entries with equal keys keeping their listing order. Each entry pairs a
/// path with its text.
pub fn select_images<P>(entries: Vec<(P, String)>) -> (out: Vec<(P, String)>)
    ensures
        exists|perm: Seq<int>| is_stable_sort_of(out@, image_entries(entries@), perm),
{
    let ghost all = entries@;
    let mut out: Vec<(P, String)> = Vec::new();
    let mut keys: Vec<Option<Vec<char>>> = Vec::new();
    let ghost mut perm: Seq<int> = seq![];
    proof {
        reveal(Seq::filter);
        assert(all.subrange(0, 0).filter(|e: (P, String)| is_image_entry(e)) =~= seq![]);
    }
    for e in it: entries.into_iter()
        invariant
            it.seq() == all,
            keys.len() == out.len(),
            forall|i: int| 0 <= i < out.len() ==> key_view(#[trigger] keys@[i]) == entry_key(out@[i]),
            is_stable_sort_of(
                out@,
                all.subrange(0, it.index() as int).filter(|e: (P, String)| is_image_entry(e)),
                perm,
            ),
    {
        let ghost idx = it.index() as int;
        let ghost before = all.subrange(0, idx).filter(|e: (P, String)| is_image_entry(e));
        proof {
            reveal(Seq::filter);
            assert(all.subrange(0, idx + 1).drop_last() =~= all.subrange(0, idx));
            assert(all.subrange(0, idx + 1).last() == all[idx]);
            assert(e == all[idx]);
        }
        if is_image(e.1.as_str()) {
            let k = key_of(e.1.as_str());
            let Ghost(np) = insert_sorted(&mut out, &mut keys, e, k, Ghost(before), Ghost(perm));
            proof {
                perm = np;
            }
        }
    }
    proof {
        assert(all.subrange(0, all.len() as int) =~= all);
        assert(is_stable_sort_of(out@, image_entries(entries@), perm));
    }
    out
}

} // verus!
