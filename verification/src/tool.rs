//! Small verified utilities: substring search, symbol-alias trimming
//! and duplicate-free merging of string collections.

use vstd::prelude::*;

verus! {

/// Whether `needle` occurs in `hay` as a contiguous run.
pub open spec fn contains_seq(hay: Seq<char>, needle: Seq<char>) -> bool {
    exists|i: int|
        0 <= i <= hay.len() - needle.len() && #[trigger] hay.subrange(i, i + needle.len())
            == needle
}

/// Whether the characters of `needle` stand in `hay` at `at`.
pub(crate) fn matches_at(hay: &str, needle: &str, at: usize) -> (r: bool)
    requires
        at + needle@.len() <= hay@.len(),
    ensures
        r == (hay@.subrange(at as int, at + needle@.len()) == needle@),
{
    let n = hay.unicode_len();
    let m = needle.unicode_len();
    let mut k: usize = 0;
    while k < m
        invariant
            k <= m,
            n == hay@.len(),
            m == needle@.len(),
            at + m <= n,
            forall|j: int| 0 <= j < k ==> hay@[at + j] == needle@[j],
        decreases m - k,
    {
        if hay.get_char(at + k) != needle.get_char(k) {
            proof {
                assert(hay@.subrange(at as int, at + needle@.len())[k as int] == hay@[at + k]);
            }
            return false;
        }
        k = k + 1;
    }
    proof {
        assert(hay@.subrange(at as int, at + needle@.len()) =~= needle@);
    }
    true
}

/// Whether `needle` occurs anywhere in `hay`.
pub fn contains_str(hay: &str, needle: &str) -> (r: bool)
    ensures
        r == contains_seq(hay@, needle@),
{
    let n = hay.unicode_len();
    let m = needle.unicode_len();
    if m == 0 {
        proof {
            assert(hay@.subrange(0, 0 + needle@.len() as int) =~= needle@);
        }
        return true;
    }
    if m > n {
        return false;
    }
    let mut i: usize = 0;
    while i <= n - m
        invariant
            1 <= m <= n,
            n == hay@.len(),
            m == needle@.len(),
            i <= n - m + 1,
            forall|j: int| 0 <= j < i ==> #[trigger] hay@.subrange(j, j + m) != needle@,
        decreases n - m + 1 - i,
    {
        if matches_at(hay, needle, i) {
            return true;
        }
        i = i + 1;
    }
    false
}

/// `s` with every leading copy of `p` removed.
pub open spec fn strip_prefix_reps(s: Seq<char>, p: Seq<char>) -> Seq<char>
    decreases s.len(),
{
    if p.len() > 0 && s.len() >= p.len() && s.subrange(0, p.len() as int) == p {
        strip_prefix_reps(s.subrange(p.len() as int, s.len() as int), p)
    } else {
        s
    }
}

/// `s` with every leading `c` removed.
pub open spec fn strip_leading(s: Seq<char>, c: char) -> Seq<char>
    decreases s.len(),
{
    if s.len() > 0 && s[0] == c {
        strip_leading(s.subrange(1, s.len() as int), c)
    } else {
        s
    }
}

/// `s` with every trailing `c` removed.
pub open spec fn strip_trailing(s: Seq<char>, c: char) -> Seq<char>
    decreases s.len(),
{
    if s.len() > 0 && s.last() == c {
        strip_trailing(s.drop_last(), c)
    } else {
        s
    }
}

/// Whether `s` ends in three zero characters.
pub open spec fn ends_with_three_zeros(s: Seq<char>) -> bool {
    &&& s.len() >= 3
    &&& s[s.len() - 3] == '0'
    &&& s[s.len() - 2] == '0'
    &&& s[s.len() - 1] == '0'
}

/// The alias-trimming rule for market symbols.  Leveraged-token
/// prefixes are peeled off the front: every leading `1M`, then every
/// leading `1000`, and, only when one of those was removed, the zeros
/// they may leave behind.  If what remains still ends in `000`, the
/// trailing zeros and the `1` of the multiplier are peeled off the
/// back.
pub open spec fn base_trim_spec(s: Seq<char>) -> Seq<char> {
    let a = strip_prefix_reps(s, seq!['1', 'M']);
    let b = strip_prefix_reps(a, seq!['1', '0', '0', '0']);
    let c = if b.len() < s.len() {
        strip_leading(b, '0')
    } else {
        b
    };
    if ends_with_three_zeros(c) {
        strip_trailing(strip_trailing(c, '0'), '1')
    } else {
        c
    }
}

/// First index at or after `from` where the leading copies of
/// `pattern` end.
fn skip_prefix_reps(text: &str, pattern: &str, from: usize) -> (lo: usize)
    requires
        from <= text@.len(),
        pattern@.len() >= 1,
    ensures
        from <= lo <= text@.len(),
        strip_prefix_reps(text@.subrange(from as int, text@.len() as int), pattern@) == text@
            .subrange(lo as int, text@.len() as int),
{
    let n = text.unicode_len();
    let m = pattern.unicode_len();
    let mut lo = from;
    loop
        invariant
            from <= lo <= n,
            n == text@.len(),
            m == pattern@.len(),
            m >= 1,
            strip_prefix_reps(text@.subrange(from as int, n as int), pattern@)
                == strip_prefix_reps(text@.subrange(lo as int, n as int), pattern@),
        decreases n - lo,
    {
        let ghost here = text@.subrange(lo as int, n as int);
        if n - lo < m {
            proof {
                assert(here.len() < pattern@.len());
                assert(strip_prefix_reps(here, pattern@) == here);
            }
            return lo;
        }
        if matches_at(text, pattern, lo) {
            proof {
                assert(here.subrange(0, pattern@.len() as int) =~= text@.subrange(
                    lo as int,
                    lo + pattern@.len(),
                ));
                assert(here.subrange(pattern@.len() as int, here.len() as int) =~= text@.subrange(
                    lo + pattern@.len(),
                    n as int,
                ));
                assert(strip_prefix_reps(here, pattern@) == strip_prefix_reps(
                    text@.subrange(lo + pattern@.len(), n as int),
                    pattern@,
                ));
            }
            lo = lo + m;
        } else {
            proof {
                assert(here.subrange(0, pattern@.len() as int) =~= text@.subrange(
                    lo as int,
                    lo + pattern@.len(),
                ));
                assert(strip_prefix_reps(here, pattern@) == here);
            }
            return lo;
        }
    }
}

/// First index of `[from, hi)` that does not hold `c`.
fn skip_leading_char(text: &str, c: char, from: usize, hi: usize) -> (lo: usize)
    requires
        from <= hi <= text@.len(),
    ensures
        from <= lo <= hi,
        strip_leading(text@.subrange(from as int, hi as int), c) == text@.subrange(
            lo as int,
            hi as int,
        ),
{
    let mut lo = from;
    loop
        invariant
            from <= lo <= hi <= text@.len(),
            strip_leading(text@.subrange(from as int, hi as int), c) == strip_leading(
                text@.subrange(lo as int, hi as int),
                c,
            ),
        decreases hi - lo,
    {
        let ghost here = text@.subrange(lo as int, hi as int);
        if lo == hi {
            proof {
                assert(strip_leading(here, c) == here);
            }
            return lo;
        }
        if text.get_char(lo) == c {
            proof {
                assert(here[0] == c);
                assert(here.subrange(1, here.len() as int) =~= text@.subrange(
                    lo + 1,
                    hi as int,
                ));
            }
            lo = lo + 1;
        } else {
            proof {
                assert(here[0] != c);
                assert(strip_leading(here, c) == here);
            }
            return lo;
        }
    }
}

/// Last index in `(lo, hi]` before the trailing run of `c` begins.
fn skip_trailing_char(text: &str, c: char, lo: usize, hi: usize) -> (new_hi: usize)
    requires
        lo <= hi <= text@.len(),
    ensures
        lo <= new_hi <= hi,
        strip_trailing(text@.subrange(lo as int, hi as int), c) == text@.subrange(
            lo as int,
            new_hi as int,
        ),
{
    let mut end = hi;
    loop
        invariant
            lo <= end <= hi <= text@.len(),
            strip_trailing(text@.subrange(lo as int, hi as int), c) == strip_trailing(
                text@.subrange(lo as int, end as int),
                c,
            ),
        decreases end,
    {
        let ghost here = text@.subrange(lo as int, end as int);
        if end == lo {
            proof {
                assert(strip_trailing(here, c) == here);
            }
            return end;
        }
        if text.get_char(end - 1) == c {
            proof {
                assert(here.last() == c);
                assert(here.drop_last() =~= text@.subrange(lo as int, end - 1));
            }
            end = end - 1;
        } else {
            proof {
                assert(here.last() != c);
                assert(strip_trailing(here, c) == here);
            }
            return end;
        }
    }
}

/// Remove the leveraged-token alias decorations from a market symbol.
pub fn base_trim<'a>(base: &'a str) -> (r: &'a str)
    ensures
        r@ == base_trim_spec(base@),
{
    proof {
        reveal_strlit("1M");
        reveal_strlit("1000");
        assert("1M"@ =~= seq!['1', 'M']);
        assert("1000"@ =~= seq!['1', '0', '0', '0']);
    }
    let n = base.unicode_len();
    proof {
        assert(base@.subrange(0, n as int) =~= base@);
    }
    let lo1 = skip_prefix_reps(base, "1M", 0);
    let lo2 = skip_prefix_reps(base, "1000", lo1);
    let lo = if lo2 > 0 {
        skip_leading_char(base, '0', lo2, n)
    } else {
        lo2
    };
    let ghost c = base@.subrange(lo as int, n as int);
    let ends_marked = n - lo >= 3 && base.get_char(n - 3) == '0' && base.get_char(n - 2) == '0'
        && base.get_char(n - 1) == '0';
    proof {
        assert(ends_marked == ends_with_three_zeros(c)) by {
            if n - lo >= 3 {
                assert(c[c.len() - 3] == base@[n - 3]);
                assert(c[c.len() - 2] == base@[n - 2]);
                assert(c[c.len() - 1] == base@[n - 1]);
            }
        }
    }
    let hi = if ends_marked {
        let h1 = skip_trailing_char(base, '0', lo, n);
        skip_trailing_char(base, '1', lo, h1)
    } else {
        n
    };
    base.substring_char(lo, hi)
}

/// Whether some element of `v` reads as `x`.
pub open spec fn has_view(v: Seq<String>, x: Seq<char>) -> bool {
    exists|i: int| 0 <= i < v.len() && (#[trigger] v[i])@ == x
}

/// Whether no two elements of `v` read the same.
pub open spec fn distinct_views(v: Seq<String>) -> bool {
    forall|i: int, j: int| 0 <= i < j < v.len() ==> (#[trigger] v[i])@ != (#[trigger] v[j])@
}

/// Whether `v` holds an element reading as `x`.
fn contains_string(v: &Vec<String>, x: &String) -> (r: bool)
    ensures
        r == has_view(v@, x@),
{
    let mut i: usize = 0;
    while i < v.len()
        invariant
            i <= v@.len(),
            forall|j: int| 0 <= j < i ==> (#[trigger] v@[j])@ != x@,
        decreases v@.len() - i,
    {
        if v[i] == *x {
            return true;
        }
        i = i + 1;
    }
    false
}

/// The alphabet random tags draw from.
pub open spec fn tag_charset() -> Seq<char> {
    seq![
        'A',
        'B',
        'C',
        'D',
        'E',
        'F',
        'G',
        'H',
        'I',
        'J',
        'K',
        'L',
        'M',
        'N',
        'O',
        'P',
        'Q',
        'R',
        'S',
        'T',
        'U',
        'V',
        'W',
        'X',
        'Y',
        'Z',
    ]
}

/// Relies on `rand::random_range`: a value drawn from the given range
/// by the thread-local generator.  The call panics only on an empty
/// range, which the precondition rules out.
#[verifier::external_body]
fn draw_index(bound: usize) -> (r: usize)
    requires
        bound >= 1,
    ensures
        r < bound,
{
    rand::random_range(0..bound)
}

/// The one-letter string a draw maps to.
fn tag_fragment(idx: usize) -> (c: &'static str)
    requires
        idx < 26,
    ensures
        c@.len() == 1,
        c@[0] == tag_charset()[idx as int],
{
    proof {
        reveal_strlit("A");
        reveal_strlit("B");
        reveal_strlit("C");
        reveal_strlit("D");
        reveal_strlit("E");
        reveal_strlit("F");
        reveal_strlit("G");
        reveal_strlit("H");
        reveal_strlit("I");
        reveal_strlit("J");
        reveal_strlit("K");
        reveal_strlit("L");
        reveal_strlit("M");
        reveal_strlit("N");
        reveal_strlit("O");
        reveal_strlit("P");
        reveal_strlit("Q");
        reveal_strlit("R");
        reveal_strlit("S");
        reveal_strlit("T");
        reveal_strlit("U");
        reveal_strlit("V");
        reveal_strlit("W");
        reveal_strlit("X");
        reveal_strlit("Y");
        reveal_strlit("Z");
    }
    match idx {
        0 => "A",
        1 => "B",
        2 => "C",
        3 => "D",
        4 => "E",
        5 => "F",
        6 => "G",
        7 => "H",
        8 => "I",
        9 => "J",
        10 => "K",
        11 => "L",
        12 => "M",
        13 => "N",
        14 => "O",
        15 => "P",
        16 => "Q",
        17 => "R",
        18 => "S",
        19 => "T",
        20 => "U",
        21 => "V",
        22 => "W",
        23 => "X",
        24 => "Y",
        _ => "Z",
    }
}

/// A three-letter tag of uppercase letters drawn at random.  The draw
/// range leaves the last letter of the alphabet out.
pub fn random_str() -> (r: String)
    ensures
        r@.len() == 3,
        forall|i: int|
            0 <= i < r@.len() ==> tag_charset().subrange(0, 25).contains(#[trigger] r@[i]),
{
    let mut tag = String::new();
    let mut k: usize = 0;
    while k < 3
        invariant
            k <= 3,
            tag@.len() == k,
            forall|i: int|
                0 <= i < tag@.len() ==> tag_charset().subrange(0, 25).contains(
                    #[trigger] tag@[i],
                ),
        decreases 3 - k,
    {
        let idx = draw_index(25);
        let fragment = tag_fragment(idx);
        tag.append(fragment);
        proof {
            assert(tag_charset().subrange(0, 25)[idx as int] == tag_charset()[idx as int]);
            assert(tag@[tag@.len() - 1] == tag_charset()[idx as int]);
        }
        k = k + 1;
    }
    tag
}

/// ASCII blank characters, the ones trimmed off list entries.
pub open spec fn is_blank(c: char) -> bool {
    c == ' ' || c == '\t' || c == '\n' || c == '\r'
}

/// `s` with every leading blank removed.
pub open spec fn strip_leading_blanks(s: Seq<char>) -> Seq<char>
    decreases s.len(),
{
    if s.len() > 0 && is_blank(s[0]) {
        strip_leading_blanks(s.subrange(1, s.len() as int))
    } else {
        s
    }
}

/// `s` with every trailing blank removed.
pub open spec fn strip_trailing_blanks(s: Seq<char>) -> Seq<char>
    decreases s.len(),
{
    if s.len() > 0 && is_blank(s.last()) {
        strip_trailing_blanks(s.drop_last())
    } else {
        s
    }
}

/// `s` without its leading and trailing blanks.
pub open spec fn trim_blanks(s: Seq<char>) -> Seq<char> {
    strip_trailing_blanks(strip_leading_blanks(s))
}

/// The comma-separated pieces of `s`: always one piece more than there
/// are commas, so an empty input yields one empty piece.
pub open spec fn split_commas(s: Seq<char>) -> Seq<Seq<char>>
    decreases s.len(),
{
    if s.len() == 0 {
        seq![Seq::<char>::empty()]
    } else if s.last() == ',' {
        split_commas(s.drop_last()).push(Seq::<char>::empty())
    } else {
        let rest = split_commas(s.drop_last());
        rest.update(rest.len() - 1, rest.last().push(s.last()))
    }
}

/// A list entry as it is kept: blanks trimmed, the surrounding quotes
/// peeled, blanks trimmed again.
pub open spec fn clean_piece(p: Seq<char>) -> Seq<char> {
    trim_blanks(strip_trailing(strip_leading(trim_blanks(p), '"'), '"'))
}

/// Whether `c` is an ASCII blank.
fn is_blank_char(c: char) -> (r: bool)
    ensures
        r == is_blank(c),
{
    c == ' ' || c == '\t' || c == '\n' || c == '\r'
}

/// First index of `[from, hi)` that does not hold a blank.
fn skip_leading_blanks_in(text: &str, from: usize, hi: usize) -> (lo: usize)
    requires
        from <= hi <= text@.len(),
    ensures
        from <= lo <= hi,
        strip_leading_blanks(text@.subrange(from as int, hi as int)) == text@.subrange(
            lo as int,
            hi as int,
        ),
{
    let mut lo = from;
    loop
        invariant
            from <= lo <= hi <= text@.len(),
            strip_leading_blanks(text@.subrange(from as int, hi as int)) == strip_leading_blanks(
                text@.subrange(lo as int, hi as int),
            ),
        decreases hi - lo,
    {
        let ghost here = text@.subrange(lo as int, hi as int);
        if lo == hi {
            proof {
                assert(strip_leading_blanks(here) == here);
            }
            return lo;
        }
        if is_blank_char(text.get_char(lo)) {
            proof {
                assert(is_blank(here[0]));
                assert(here.subrange(1, here.len() as int) =~= text@.subrange(
                    lo + 1,
                    hi as int,
                ));
            }
            lo = lo + 1;
        } else {
            proof {
                assert(!is_blank(here[0]));
                assert(strip_leading_blanks(here) == here);
            }
            return lo;
        }
    }
}

/// Last index in `(lo, hi]` before the trailing run of blanks begins.
fn skip_trailing_blanks_in(text: &str, lo: usize, hi: usize) -> (new_hi: usize)
    requires
        lo <= hi <= text@.len(),
    ensures
        lo <= new_hi <= hi,
        strip_trailing_blanks(text@.subrange(lo as int, hi as int)) == text@.subrange(
            lo as int,
            new_hi as int,
        ),
{
    let mut end = hi;
    loop
        invariant
            lo <= end <= hi <= text@.len(),
            strip_trailing_blanks(text@.subrange(lo as int, hi as int)) == strip_trailing_blanks(
                text@.subrange(lo as int, end as int),
            ),
        decreases end,
    {
        let ghost here = text@.subrange(lo as int, end as int);
        if end == lo {
            proof {
                assert(strip_trailing_blanks(here) == here);
            }
            return end;
        }
        if is_blank_char(text.get_char(end - 1)) {
            proof {
                assert(is_blank(here.last()));
                assert(here.drop_last() =~= text@.subrange(lo as int, end - 1));
            }
            end = end - 1;
        } else {
            proof {
                assert(!is_blank(here.last()));
                assert(strip_trailing_blanks(here) == here);
            }
            return end;
        }
    }
}

/// The cleaned entry of the window `[start, end)`, as an owned string.
fn clean_window(text: &str, start: usize, end: usize) -> (r: String)
    requires
        start <= end <= text@.len(),
    ensures
        r@ == clean_piece(text@.subrange(start as int, end as int)),
{
    let w1 = skip_leading_blanks_in(text, start, end);
    let w2 = skip_trailing_blanks_in(text, w1, end);
    let q1 = skip_leading_char(text, '"', w1, w2);
    let q2 = skip_trailing_char(text, '"', q1, w2);
    let b1 = skip_leading_blanks_in(text, q1, q2);
    let b2 = skip_trailing_blanks_in(text, b1, q2);
    let piece = text.substring_char(b1, b2);
    piece.to_owned()
}

/// Split a comma-separated deny list into its cleaned entries, kept as
/// a duplicate-free collection: each entry is trimmed of blanks and of
/// one layer of surrounding quotes.
pub fn blacklist_detach(li: &str) -> (r: Vec<String>)
    ensures
        distinct_views(r@),
        forall|x: Seq<char>|
            #[trigger] has_view(r@, x) <==> exists|j: int|
                0 <= j < split_commas(li@).len() && clean_piece(
                    #[trigger] split_commas(li@)[j],
                ) == x,
{
    let n = li.unicode_len();
    let mut out: Vec<String> = Vec::new();
    let mut start: usize = 0;
    let mut i: usize = 0;
    let ghost mut done: Seq<Seq<char>> = Seq::empty();
    proof {
        assert(li@.subrange(0, 0).len() == 0);
        assert(split_commas(li@.subrange(0, 0)) =~~= done.push(li@.subrange(0, 0)));
    }
    while i < n
        invariant
            start <= i <= n,
            n == li@.len(),
            split_commas(li@.subrange(0, i as int)) == done.push(
                li@.subrange(start as int, i as int),
            ),
            forall|x: Seq<char>|
                #[trigger] has_view(out@, x) <==> exists|j: int|
                    0 <= j < done.len() && clean_piece(#[trigger] done[j]) == x,
            distinct_views(out@),
        decreases n - i,
    {
        let ghost upto = li@.subrange(0, i as int);
        let ghost piece = li@.subrange(start as int, i as int);
        let c = li.get_char(i);
        proof {
            assert(li@.subrange(0, i + 1).drop_last() =~= upto);
            assert(li@.subrange(0, i + 1).last() == c);
        }
        if c == ',' {
            let cleaned = clean_window(li, start, i);
            let ghost pre_out = out@;
            insert_unique(&mut out, cleaned);
            proof {
                let with_piece = done.push(piece);
                assert(split_commas(li@.subrange(0, i + 1)) == with_piece.push(
                    Seq::<char>::empty(),
                ));
                assert forall|x: Seq<char>| #[trigger] has_view(out@, x) <==> exists|j: int|
                    0 <= j < with_piece.len() && clean_piece(#[trigger] with_piece[j]) == x by {
                    if has_view(out@, x) {
                        if has_view(pre_out, x) {
                            let j = choose|j: int|
                                0 <= j < done.len() && clean_piece(#[trigger] done[j]) == x;
                            assert(clean_piece(with_piece[j]) == x);
                        } else {
                            assert(x == clean_piece(piece));
                            assert(clean_piece(with_piece[done.len() as int]) == x);
                        }
                    }
                    if exists|j: int|
                        0 <= j < with_piece.len() && clean_piece(#[trigger] with_piece[j]) == x {
                        let j = choose|j: int|
                            0 <= j < with_piece.len() && clean_piece(#[trigger] with_piece[j])
                                == x;
                        if j < done.len() {
                            assert(clean_piece(done[j]) == x);
                            assert(has_view(pre_out, x));
                        } else {
                            assert(x == clean_piece(piece));
                        }
                    }
                }
                done = with_piece;
                assert(li@.subrange(i + 1, i + 1).len() == 0);
                assert(split_commas(li@.subrange(0, i + 1)) =~~= done.push(
                    li@.subrange(i + 1, i + 1),
                ));
            }
            start = i + 1;
            i = i + 1;
        } else {
            proof {
                let rest = split_commas(upto);
                assert(rest == done.push(piece));
                assert(rest.len() == done.len() + 1);
                assert(rest.last() == piece);
                assert(split_commas(li@.subrange(0, i + 1)) == rest.update(
                    rest.len() - 1,
                    piece.push(c),
                ));
                assert(rest.update(rest.len() - 1, piece.push(c)) =~= done.push(piece.push(c)));
                assert(piece.push(c) =~= li@.subrange(start as int, i + 1));
            }
            i = i + 1;
        }
    }
    let cleaned = clean_window(li, start, n);
    let ghost pre_out = out@;
    let ghost piece = li@.subrange(start as int, n as int);
    insert_unique(&mut out, cleaned);
    proof {
        assert(li@.subrange(0, n as int) =~= li@);
        let pieces = done.push(piece);
        assert(split_commas(li@) == pieces);
        assert forall|x: Seq<char>| #[trigger] has_view(out@, x) <==> exists|j: int|
            0 <= j < pieces.len() && clean_piece(#[trigger] pieces[j]) == x by {
            if has_view(out@, x) {
                if has_view(pre_out, x) {
                    let j = choose|j: int|
                        0 <= j < done.len() && clean_piece(#[trigger] done[j]) == x;
                    assert(clean_piece(pieces[j]) == x);
                } else {
                    assert(x == clean_piece(piece));
                    assert(clean_piece(pieces[done.len() as int]) == x);
                }
            }
            if exists|j: int| 0 <= j < pieces.len() && clean_piece(#[trigger] pieces[j]) == x {
                let j = choose|j: int|
                    0 <= j < pieces.len() && clean_piece(#[trigger] pieces[j]) == x;
                if j < done.len() {
                    assert(clean_piece(done[j]) == x);
                    assert(has_view(pre_out, x));
                } else {
                    assert(x == clean_piece(piece));
                }
            }
        }
    }
    out
}

/// Law of `has_view` over an append: the appended vector reads a
/// string if and only if the old one did, or the new element reads so.
pub proof fn lemma_has_view_push(v: Seq<String>, e: String, x: Seq<char>)
    ensures
        has_view(v.push(e), x) <==> (has_view(v, x) || e@ == x),
{
    if has_view(v.push(e), x) {
        let i = choose|i: int| 0 <= i < v.push(e).len() && (#[trigger] v.push(e)[i])@ == x;
        if i < v.len() {
            assert(v[i]@ == x);
        }
    }
    if has_view(v, x) {
        let i = choose|i: int| 0 <= i < v.len() && (#[trigger] v[i])@ == x;
        assert(v.push(e)[i]@ == x);
    }
    if e@ == x {
        assert(v.push(e)[v.len() as int]@ == x);
    }
}

/// Append `s` unless an equal string is already there.
fn insert_unique(out: &mut Vec<String>, s: String)
    ensures
        forall|x: Seq<char>|
            #[trigger] has_view(final(out)@, x) <==> (has_view(old(out)@, x) || x == s@),
        distinct_views(old(out)@) ==> distinct_views(final(out)@),
{
    let ghost pre = out@;
    let ghost sv = s@;
    let present = contains_string(out, &s);
    if !present {
        out.push(s);
    }
    proof {
        if present {
            assert forall|x: Seq<char>| #[trigger] has_view(out@, x) <==> (has_view(pre, x) || x
                == sv) by {
                if x == sv {
                    assert(has_view(pre, x));
                }
            }
        } else {
            assert forall|x: Seq<char>| #[trigger] has_view(out@, x) <==> (has_view(pre, x) || x
                == sv) by {
                lemma_has_view_push(pre, out@[pre.len() as int], x);
                assert(out@ == pre.push(out@[pre.len() as int]));
            }
            if distinct_views(pre) {
                assert forall|i: int, j: int| 0 <= i < j < out@.len() implies (
                #[trigger] out@[i])@ != (#[trigger] out@[j])@ by {
                    if j < pre.len() {
                    } else {
                        assert(out@[j]@ == sv);
                        assert(!has_view(pre, sv));
                        assert(out@[i] == pre[i]);
                    }
                }
            }
        }
    }
}

/// Merge `source` into `target` as sets: afterwards `target` holds
/// exactly the strings of both, and stays free of duplicates if it was.
pub fn hash_set_merge(target: &mut Vec<String>, source: Vec<String>)
    ensures
        forall|x: Seq<char>|
            #[trigger] has_view(final(target)@, x) <==> has_view(old(target)@, x) || has_view(
                source@,
                x,
            ),
        distinct_views(old(target)@) ==> distinct_views(final(target)@),
{
    let mut rest = source;
    let ghost all = rest@;
    let ghost start = target@;
    while rest.len() > 0
        invariant
            rest@.len() <= all.len(),
            rest@ == all.subrange(all.len() - rest@.len(), all.len() as int),
            forall|x: Seq<char>|
                #[trigger] has_view(target@, x) <==> has_view(start, x) || has_view(
                    all.subrange(0, all.len() - rest@.len()),
                    x,
                ),
            distinct_views(start) ==> distinct_views(target@),
        decreases rest@.len(),
    {
        let ghost taken = all.len() - rest@.len();
        let ghost pre = target@;
        let s = rest.remove(0);
        proof {
            assert(s == all[taken]);
            assert(rest@ =~= all.subrange(taken + 1, all.len() as int));
        }
        insert_unique(target, s);
        proof {
            let prefix = all.subrange(0, taken + 1);
            assert(prefix =~= all.subrange(0, taken).push(all[taken]));
            assert forall|x: Seq<char>| #[trigger] has_view(target@, x) <==> (has_view(start, x)
                || has_view(prefix, x)) by {
                lemma_has_view_push(all.subrange(0, taken), all[taken], x);
            }
        }
    }
    proof {
        assert(all.subrange(0, all.len() - rest@.len()) =~= all);
    }
}

} // verus!
