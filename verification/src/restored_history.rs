use vstd::prelude::*;
use vstd::string::StringSliceAdditionalSpecFns;

verus! {

/// How many times `p` occurs in `s`, looking from position `i`.
pub open spec fn occurrences_from(s: Seq<u8>, p: Seq<u8>, i: int) -> nat
    decreases s.len() - i,
{
    if i < 0 || i >= s.len() || i + p.len() > s.len() {
        0
    } else {
        (if s.subrange(i, i + p.len()) == p { 1nat } else { 0nat }) + occurrences_from(s, p, i + 1)
    }
}

/// How many times `p` occurs in `s`.
pub open spec fn occurrences(s: Seq<u8>, p: Seq<u8>) -> nat {
    occurrences_from(s, p, 0)
}

/// `history NN`, the marker of line `NN` of restored history, in ASCII.
pub open spec fn history_marker(line: int) -> Seq<u8> {
    seq![0x68u8, 0x69, 0x73, 0x74, 0x6f, 0x72, 0x79, 0x20, (0x30 + line / 10) as u8, (0x30 + line % 10) as u8]
}

/// `Waiting to run:`, the banner of a command that has not started, in ASCII.
pub open spec fn waiting_banner() -> Seq<u8> {
    seq![0x57u8, 0x61, 0x69, 0x74, 0x69, 0x6e, 0x67, 0x20, 0x74, 0x6f, 0x20, 0x72, 0x75, 0x6e, 0x3a]
}

/// `drop to shell`, part of the same banner, in ASCII.
pub open spec fn shell_banner() -> Seq<u8> {
    seq![0x64u8, 0x72, 0x6f, 0x70, 0x20, 0x74, 0x6f, 0x20, 0x73, 0x68, 0x65, 0x6c, 0x6c]
}

/// Forty lines of history were restored: each of `history 00` to `history 39` occurs exactly
/// once, no banner of a command waiting to run is left, and there is scrollback.
pub open spec fn history_restored(contents: Seq<u8>, scrollback_length: usize) -> bool {
    &&& forall|line: int| 0 <= line < 40 ==> occurrences(contents, #[trigger] history_marker(line)) == 1
    &&& occurrences(contents, waiting_banner()) == 0
    &&& occurrences(contents, shell_banner()) == 0
    &&& scrollback_length > 0
}

pub proof fn lemma_occurrences_bound(s: Seq<u8>, p: Seq<u8>, i: int)
    requires
        0 <= i,
    ensures
        occurrences_from(s, p, i) <= if s.len() >= i { s.len() - i } else { 0 },
    decreases s.len() - i,
{
    if i < s.len() && i + p.len() <= s.len() {
        lemma_occurrences_bound(s, p, i + 1);
    }
}

fn matches_at(s: &[u8], p: &Vec<u8>, i: usize) -> (r: bool)
    requires
        i + p@.len() <= s@.len(),
    ensures
        r == (s@.subrange(i as int, i + p@.len()) == p@),
{
    let n = s.len();
    let mut k: usize = 0;
    while k < p.len()
        invariant
            n == s@.len(),
            i + p@.len() <= s@.len(),
            k <= p@.len(),
            forall|j: int| 0 <= j < k ==> s@[i + j] == p@[j],
        decreases p@.len() - k,
    {
        if s[i + k] != p[k] {
            assert(s@.subrange(i as int, i + p@.len())[k as int] != p@[k as int]);
            return false;
        }
        k += 1;
    }
    assert(s@.subrange(i as int, i + p@.len()) =~= p@);
    true
}

/// How many times `p` occurs in `s`.
pub fn count_occurrences(s: &[u8], p: &Vec<u8>) -> (n: usize)
    ensures
        n == occurrences(s@, p@),
{
    let mut n: usize = 0;
    let mut i: usize = 0;
    proof {
        lemma_occurrences_bound(s@, p@, 0);
    }
    if p.len() > s.len() {
        return 0;
    }
    let last = s.len() - p.len();
    while i <= last && i < s.len()
        invariant
            p@.len() <= s@.len(),
            last == s@.len() - p@.len(),
            i <= s@.len(),
            n + occurrences_from(s@, p@, i as int) == occurrences(s@, p@),
            n <= i,
        decreases s@.len() - i,
    {
        if matches_at(s, p, i) {
            n += 1;
        }
        i += 1;
    }
    n
}

fn marker_bytes(line: u8) -> (r: Vec<u8>)
    requires
        line < 40,
    ensures
        r@ == history_marker(line as int),
{
    let mut r: Vec<u8> = Vec::new();
    r.push(0x68);
    r.push(0x69);
    r.push(0x73);
    r.push(0x74);
    r.push(0x6f);
    r.push(0x72);
    r.push(0x79);
    r.push(0x20);
    r.push(0x30 + line / 10);
    r.push(0x30 + line % 10);
    assert(r@ =~= history_marker(line as int));
    r
}

fn banner_bytes(waiting: bool) -> (r: Vec<u8>)
    ensures
        waiting ==> r@ == waiting_banner(),
        !waiting ==> r@ == shell_banner(),
{
    let mut r: Vec<u8> = Vec::new();
    if waiting {
        r.push(0x57);
        r.push(0x61);
        r.push(0x69);
        r.push(0x74);
        r.push(0x69);
        r.push(0x6e);
        r.push(0x67);
        r.push(0x20);
        r.push(0x74);
        r.push(0x6f);
        r.push(0x20);
        r.push(0x72);
        r.push(0x75);
        r.push(0x6e);
        r.push(0x3a);
        assert(r@ =~= waiting_banner());
    } else {
        r.push(0x64);
        r.push(0x72);
        r.push(0x6f);
        r.push(0x70);
        r.push(0x20);
        r.push(0x74);
        r.push(0x6f);
        r.push(0x20);
        r.push(0x73);
        r.push(0x68);
        r.push(0x65);
        r.push(0x6c);
        r.push(0x6c);
        assert(r@ =~= shell_banner());
    }
    r
}

/// Whether the dump of a pane's screen (scrollback included) and the length of its scrollback
/// show restored history: each history marker once, no banner, some scrollback. The markers
/// cannot overlap themselves, so counting where they start counts their matches.
pub fn assert_restored_history(contents: &str, scrollback_length: usize) -> (r: bool)
    ensures
        r == history_restored(contents.spec_bytes(), scrollback_length),
{
    let bytes = contents.as_bytes();
    let mut line: u8 = 0;
    while line < 40
        invariant
            line <= 40,
            bytes@ == contents.spec_bytes(),
            forall|l: int| 0 <= l < line ==> occurrences(bytes@, #[trigger] history_marker(l)) == 1,
        decreases 40 - line,
    {
        let marker = marker_bytes(line);
        if count_occurrences(bytes, &marker) != 1 {
            return false;
        }
        line += 1;
    }
    if count_occurrences(bytes, &banner_bytes(true)) != 0 {
        return false;
    }
    if count_occurrences(bytes, &banner_bytes(false)) != 0 {
        return false;
    }
    scrollback_length > 0
}

} // verus!
