//! Resolving a playlist: what the flat-playlist listing tool's output means.
//!
//! The tool prints one track URL per line on its standard output. A run is
//! useful only when the tool exited successfully and at least one printed
//! line holds something besides whitespace; every such line, stripped of a
//! trailing carriage return, is one track URL.

use vstd::prelude::*;

verus! {

/// The Unicode whitespace characters, as `char::is_whitespace` accepts them.
pub open spec fn is_space_char(c: char) -> bool {
    c == ' ' || c == '\t' || c == '\n' || c == '\u{b}' || c == '\u{c}' || c == '\r' || c
        == '\u{85}' || c == '\u{a0}' || c == '\u{1680}' || (0x2000 <= c as u32 && c as u32
        <= 0x200a) || c == '\u{2028}' || c == '\u{2029}' || c == '\u{202f}' || c == '\u{205f}'
        || c == '\u{3000}'
}

/// A line is blank when every character on it is whitespace.
pub open spec fn is_blank(l: Seq<char>) -> bool {
    forall|i: int| 0 <= i < l.len() ==> is_space_char(#[trigger] l[i])
}

/// A line with its trailing carriage return, if any, removed.
pub open spec fn chomp_cr(l: Seq<char>) -> Seq<char> {
    if l.len() > 0 && l[l.len() - 1] == '\r' {
        l.drop_last()
    } else {
        l
    }
}

/// The segments of `s` between newline characters, in order. Text that ends
/// in a newline yields a final empty segment, which is blank and so never
/// kept.
pub open spec fn raw_lines(s: Seq<char>) -> Seq<Seq<char>>
    decreases s.len(),
{
    if s.len() == 0 {
        seq![Seq::<char>::empty()]
    } else if s[0] == '\n' {
        seq![Seq::<char>::empty()] + raw_lines(s.skip(1))
    } else {
        let rest = raw_lines(s.skip(1));
        seq![seq![s[0]] + rest[0]] + rest.skip(1)
    }
}

/// Of a sequence of raw lines, the ones worth keeping: each line loses a
/// trailing carriage return, and survives only if it is not blank.
pub open spec fn kept_of(lines: Seq<Seq<char>>) -> Seq<Seq<char>>
    decreases lines.len(),
{
    if lines.len() == 0 {
        Seq::<Seq<char>>::empty()
    } else {
        let first = chomp_cr(lines[0]);
        let rest = kept_of(lines.skip(1));
        if is_blank(first) {
            rest
        } else {
            seq![first] + rest
        }
    }
}

/// The track URLs that the listing tool's standard output names, in print
/// order: its non-blank lines, each without a trailing carriage return.
pub open spec fn kept_lines(s: Seq<char>) -> Seq<Seq<char>> {
    kept_of(raw_lines(s))
}

proof fn lemma_raw_lines_no_newline(s: Seq<char>)
    requires
        forall|i: int| 0 <= i < s.len() ==> s[i] != '\n',
    ensures
        raw_lines(s) == seq![s],
    decreases s.len(),
{
    if s.len() == 0 {
        assert(s =~= Seq::<char>::empty());
    } else {
        assert(forall|i: int| 0 <= i < s.skip(1).len() ==> #[trigger] s.skip(1)[i] != '\n');
        lemma_raw_lines_no_newline(s.skip(1));
        assert(seq![s[0]] + s.skip(1) =~= s);
        assert(seq![s].skip(1) =~= Seq::<Seq<char>>::empty());
        assert(raw_lines(s) =~= seq![s]);
    }
}

proof fn lemma_raw_lines_split(s: Seq<char>, k: int)
    requires
        0 <= k < s.len(),
        s[k] == '\n',
        forall|i: int| 0 <= i < k ==> s[i] != '\n',
    ensures
        raw_lines(s) == seq![s.take(k)] + raw_lines(s.skip(k + 1)),
    decreases k,
{
    if k == 0 {
        assert(s.take(0) =~= Seq::<char>::empty());
        assert(raw_lines(s) == seq![Seq::<char>::empty()] + raw_lines(s.skip(1)));
    } else {
        let t = s.skip(1);
        assert(forall|i: int| 0 <= i < k - 1 ==> #[trigger] t[i] != '\n');
        assert(t[k - 1] == '\n');
        lemma_raw_lines_split(t, k - 1);
        assert(t.skip(k) =~= s.skip(k + 1));
        assert(seq![s[0]] + t.take(k - 1) =~= s.take(k));
        let rest = raw_lines(t);
        assert(rest[0] == t.take(k - 1));
        assert(rest.skip(1) =~= raw_lines(t.skip(k)));
        assert(raw_lines(s) =~= seq![s.take(k)] + raw_lines(s.skip(k + 1)));
    }
}

proof fn lemma_kept_of_cons(l: Seq<char>, rest: Seq<Seq<char>>)
    ensures
        kept_of(seq![l] + rest) == if is_blank(chomp_cr(l)) {
            kept_of(rest)
        } else {
            seq![chomp_cr(l)] + kept_of(rest)
        },
{
    let lines = seq![l] + rest;
    assert(lines[0] == l);
    assert(lines.skip(1) =~= rest);
}

/// Whether `c` is Unicode whitespace.
fn is_space(c: char) -> (b: bool)
    ensures
        b == is_space_char(c),
{
    c == ' ' || c == '\t' || c == '\n' || c == '\u{b}' || c == '\u{c}' || c == '\r' || c
        == '\u{85}' || c == '\u{a0}' || c == '\u{1680}' || (0x2000 <= c as u32 && c as u32
        <= 0x200a) || c == '\u{2028}' || c == '\u{2029}' || c == '\u{202f}' || c == '\u{205f}'
        || c == '\u{3000}'
}

/// Split the listing tool's standard output into the track URLs it names:
/// its non-blank lines, in print order, without trailing carriage returns.
pub fn split_listing(s: &str) -> (r: Vec<String>)
    ensures
        r.deep_view() == kept_lines(s@),
{
    let n = s.unicode_len();
    let mut out: Vec<String> = Vec::new();
    let mut start: usize = 0;
    proof {
        assert(s@.skip(0) =~= s@);
        assert(out.deep_view() + kept_lines(s@) =~= kept_lines(s@));
    }
    loop
        invariant_except_break
            kept_lines(s@) == out.deep_view() + kept_lines(s@.skip(start as int)),
        invariant
            start <= n,
            n == s@.len(),
        ensures
            out.deep_view() == kept_lines(s@),
        decreases n - start,
    {
        let mut i = start;
        while i < n && s.get_char(i) != '\n'
            invariant
                start <= i <= n,
                n == s@.len(),
                forall|j: int| start <= j < i ==> s@[j] != '\n',
            decreases n - i,
        {
            i = i + 1;
        }
        let mut end = i;
        if end > start && s.get_char(end - 1) == '\r' {
            end = end - 1;
        }
        let mut blank = true;
        let mut j = start;
        while j < end
            invariant
                start <= j <= end <= n,
                n == s@.len(),
                blank <==> (forall|k: int| start <= k < j ==> is_space_char(#[trigger] s@[k])),
            decreases end - j,
        {
            if !is_space(s.get_char(j)) {
                blank = false;
            }
            j = j + 1;
        }
        let ghost line = s@.subrange(start as int, i as int);
        let ghost kept = s@.subrange(start as int, end as int);
        proof {
            assert(chomp_cr(line) =~= kept);
            if blank {
                assert forall|p: int| 0 <= p < kept.len() implies is_space_char(kept[p]) by {
                    assert(kept[p] == s@[start + p]);
                }
            } else {
                let k0 = choose|k: int| start <= k < end && !is_space_char(s@[k]);
                assert(kept[k0 - start] == s@[k0]);
                assert(!is_blank(kept));
            }
        }
        if !blank {
            let url = s.substring_char(start, end).to_owned();
            let ghost before = out.deep_view();
            out.push(url);
            proof {
                assert(out.deep_view() =~= before.push(kept));
            }
        }
        proof {
            let t = s@.skip(start as int);
            if i < n {
                assert(t[i - start] == '\n');
                assert(forall|p: int| 0 <= p < i - start ==> #[trigger] t[p] != '\n');
                lemma_raw_lines_split(t, i - start);
                assert(t.take(i - start) =~= line);
                assert(t.skip(i - start + 1) =~= s@.skip(i + 1));
                lemma_kept_of_cons(line, raw_lines(s@.skip(i + 1)));
                assert(kept_lines(t) == if is_blank(kept) {
                    kept_lines(s@.skip(i + 1))
                } else {
                    seq![kept] + kept_lines(s@.skip(i + 1))
                });
                if !blank {
                    assert(out.deep_view() + kept_lines(s@.skip(i + 1)) =~= kept_lines(s@));
                }
            } else {
                assert(forall|p: int| 0 <= p < t.len() ==> #[trigger] t[p] != '\n');
                lemma_raw_lines_no_newline(t);
                assert(t =~= line);
                assert(seq![line].skip(1) =~= Seq::<Seq<char>>::empty());
                assert(kept_of(seq![line].skip(1)) == Seq::<Seq<char>>::empty());
                assert(kept_lines(t) == if is_blank(kept) {
                    Seq::<Seq<char>>::empty()
                } else {
                    seq![kept]
                }) by {
                    assert(seq![line][0] == line);
                    assert(raw_lines(t) == seq![line]);
                }
                if blank {
                    assert(out.deep_view() + Seq::<Seq<char>>::empty() =~= out.deep_view());
                } else {
                    assert(out.deep_view() =~= kept_lines(s@));
                }
            }
        }
        if i == n {
            break;
        }
        start = i + 1;
    }
    out
}

/// Why a playlist could not be ingested.
#[derive(PartialEq, Eq, Structural, Clone, Copy, Debug)]
pub enum ListingError {
    /// The listing tool exited with a non-zero status.
    ToolFailed,
    /// The tool succeeded but its output named no track at all.
    EmptyPlaylist,
}

/// Decide what one run of the flat-playlist listing tool resolved.
///
/// `success` is whether the tool exited with status zero, `stdout` what it
/// printed. A failed run, and a successful run whose output names no track,
/// resolve to nothing; otherwise every named track URL comes back, in print
/// order.
pub fn resolve_listing(success: bool, stdout: &str) -> (r: Result<Vec<String>, ListingError>)
    ensures
        !success ==> r == Err::<Vec<String>, ListingError>(ListingError::ToolFailed),
        success && kept_lines(stdout@).len() == 0 ==> r == Err::<Vec<String>, ListingError>(
            ListingError::EmptyPlaylist,
        ),
        success && kept_lines(stdout@).len() > 0 ==> (r matches Ok(v) && v.deep_view()
            == kept_lines(stdout@)),
{
    if !success {
        return Err(ListingError::ToolFailed);
    }
    let urls = split_listing(stdout);
    if urls.len() == 0 {
        return Err(ListingError::EmptyPlaylist);
    }
    Ok(urls)
}

} // verus!
