use vstd::prelude::*;

verus! {

/// Code point of `c` with ASCII upper-case letters mapped to lower case.
pub open spec fn fold_case(c: char) -> u32 {
    if 'A' <= c && c <= 'Z' {
        (c as u32 + 32) as u32
    } else {
        c as u32
    }
}

/// `a` and `b` are equal when ASCII case is ignored.
pub open spec fn equal_ignoring_case(a: Seq<char>, b: Seq<char>) -> bool {
    &&& a.len() == b.len()
    &&& forall|i: int| 0 <= i < a.len() ==> #[trigger] fold_case(a[i]) == fold_case(b[i])
}

/// File extensions accepted as audio input: mp3, wav and flac, in any case.
pub open spec fn supported_extension(ext: Seq<char>) -> bool {
    ||| equal_ignoring_case(ext, seq!['m', 'p', '3'])
    ||| equal_ignoring_case(ext, seq!['w', 'a', 'v'])
    ||| equal_ignoring_case(ext, seq!['f', 'l', 'a', 'c'])
}

fn fold_char(c: char) -> (r: u32)
    ensures
        r == fold_case(c),
{
    if 'A' <= c && c <= 'Z' {
        c as u32 + 32
    } else {
        c as u32
    }
}

fn matches_ignoring_case(a: &str, b: &str) -> (r: bool)
    ensures
        r == equal_ignoring_case(a@, b@),
{
    let n = a.unicode_len();
    if n != b.unicode_len() {
        return false;
    }
    let mut i: usize = 0;
    while i < n
        invariant
            n == a@.len(),
            n == b@.len(),
            i <= n,
            forall|j: int| 0 <= j < i ==> #[trigger] fold_case(a@[j]) == fold_case(b@[j]),
        decreases n - i,
    {
        if fold_char(a.get_char(i)) != fold_char(b.get_char(i)) {
            return false;
        }
        i += 1;
    }
    true
}

/// Whether a file with extension `ext` (without the dot) is offered as audio
/// input: mp3, wav or flac, ignoring case.
pub fn is_supported_extension(ext: &str) -> (r: bool)
    ensures
        r == supported_extension(ext@),
{
    proof {
        reveal_strlit("mp3");
        reveal_strlit("wav");
        reveal_strlit("flac");
        assert("mp3"@ =~= seq!['m', 'p', '3']);
        assert("wav"@ =~= seq!['w', 'a', 'v']);
        assert("flac"@ =~= seq!['f', 'l', 'a', 'c']);
    }
    matches_ignoring_case(ext, "mp3") || matches_ignoring_case(ext, "wav") || matches_ignoring_case(
        ext,
        "flac",
    )
}

} // verus!
