use vstd::prelude::*;

verus! {

/// `needle` occurs in `hay` starting at position `i`.
pub open spec fn occurs_at(hay: Seq<u8>, needle: Seq<u8>, i: int) -> bool {
    0 <= i && i + needle.len() <= hay.len() && hay.subrange(i, i + needle.len()) == needle
}

/// `needle` occurs somewhere in `hay`.
pub open spec fn occurs_in(hay: Seq<u8>, needle: Seq<u8>) -> bool {
    exists|i: int| occurs_at(hay, needle, i)
}

fn matches_at(hay: &[u8], needle: &[u8], i: usize) -> (r: bool)
    requires
        i + needle.len() <= hay.len(),
    ensures
        r == occurs_at(hay@, needle@, i as int),
{
    let mut k: usize = 0;
    while k < needle.len()
        invariant
            0 <= k <= needle@.len(),
            i + needle.len() <= hay.len(),
            forall|j: int| 0 <= j < k ==> hay@[i + j] == needle@[j],
        decreases needle@.len() - k,
    {
        if hay[i + k] != needle[k] {
            assert(hay@.subrange(i as int, i + needle@.len())[k as int] != needle@[k as int]);
            return false;
        }
        k = k + 1;
    }
    assert(hay@.subrange(i as int, i + needle@.len()) =~= needle@);
    true
}

/// The first position at or after `from` where `needle` occurs in `hay`.
pub fn find_from(hay: &[u8], needle: &[u8], from: usize) -> (r: Option<usize>)
    ensures
        r is Some ==> from <= r->Some_0 && occurs_at(hay@, needle@, r->Some_0 as int),
        r is Some ==> forall|j: int| from <= j < r->Some_0 ==> !occurs_at(hay@, needle@, j),
        r is None ==> forall|j: int| from <= j ==> !occurs_at(hay@, needle@, j),
{
    if needle.len() > hay.len() {
        return None;
    }
    let last = hay.len() - needle.len();
    if from > last {
        return None;
    }
    let mut i: usize = from;
    loop
        invariant
            last == hay@.len() - needle@.len(),
            from <= i <= last,
            forall|j: int| from <= j < i ==> !occurs_at(hay@, needle@, j),
        decreases last - i,
    {
        if matches_at(hay, needle, i) {
            return Some(i);
        }
        if i == last {
            return None;
        }
        i = i + 1;
    }
}

/// Whether `needle` occurs anywhere in `hay`.
pub fn contains(hay: &[u8], needle: &[u8]) -> (r: bool)
    ensures
        r == occurs_in(hay@, needle@),
{
    match find_from(hay, needle, 0) {
        Some(_) => true,
        None => {
            assert forall|j: int| !occurs_at(hay@, needle@, j) by {
                if j < 0 {
                }
            }
            false
        },
    }
}

/// The length in bytes of the white-space character that starts at position
/// `i`, or 0 where none does. White space is Unicode's White_Space property, as
/// `char::is_whitespace` has it: U+0009 to U+000D, U+0020, U+0085, U+00A0,
/// U+1680, U+2000 to U+200A, U+2028, U+2029, U+202F, U+205F and U+3000, here in
/// their UTF-8 encodings.
pub open spec fn space_len(s: Seq<u8>, i: int) -> int {
    let n = s.len() - i;
    if i < 0 || n < 1 {
        0
    } else if s[i] == 32 || (9 <= s[i] <= 13) {
        1
    } else if n >= 2 && s[i] == 0xc2 && (s[i + 1] == 0x85 || s[i + 1] == 0xa0) {
        2
    } else if n >= 3 && s[i] == 0xe1 && s[i + 1] == 0x9a && s[i + 2] == 0x80 {
        3
    } else if n >= 3 && s[i] == 0xe2 && s[i + 1] == 0x80 && ((0x80 <= s[i + 2] <= 0x8a) || s[i
        + 2] == 0xa8 || s[i + 2] == 0xa9 || s[i + 2] == 0xaf) {
        3
    } else if n >= 3 && s[i] == 0xe2 && s[i + 1] == 0x81 && s[i + 2] == 0x9f {
        3
    } else if n >= 3 && s[i] == 0xe3 && s[i + 1] == 0x80 && s[i + 2] == 0x80 {
        3
    } else {
        0
    }
}

/// Splitting on white space from position `i` on, with the spans `done` of
/// the words already closed and the start `open` of the word under way, if any:
/// the spans of all the words.
pub open spec fn scan_words(s: Seq<u8>, i: int, open: Option<int>, done: Seq<(int, int)>) -> Seq<
    (int, int),
>
    decreases s.len() - i,
{
    if i >= s.len() {
        match open {
            Some(start) => done.push((start, s.len() as int)),
            None => done,
        }
    } else if space_len(s, i) > 0 {
        let closed = match open {
            Some(start) => done.push((start, i)),
            None => done,
        };
        scan_words(s, i + space_len(s, i), None, closed)
    } else {
        let still = match open {
            Some(start) => Some(start),
            None => Some(i),
        };
        scan_words(s, i + 1, still, done)
    }
}

/// The spans `(start, end)` of the words of `s`, in order: its maximal runs that
/// hold no white-space character.
pub open spec fn words(s: Seq<u8>) -> Seq<(int, int)> {
    scan_words(s, 0, None, Seq::empty())
}

/// The spans as integers.
pub open spec fn spans(v: Seq<(usize, usize)>) -> Seq<(int, int)> {
    Seq::new(v.len(), |k: int| (v[k].0 as int, v[k].1 as int))
}

/// The start of the word under way, as an integer.
pub open spec fn open_start(o: Option<usize>) -> Option<int> {
    match o {
        Some(x) => Some(x as int),
        None => None,
    }
}

fn space_len_at(s: &[u8], i: usize) -> (r: usize)
    requires
        i < s.len(),
    ensures
        r as int == space_len(s@, i as int),
{
    let n = s.len() - i;
    let b = s[i];
    if b == 32 || (9 <= b && b <= 13) {
        1
    } else if n >= 2 && b == 0xc2 && (s[i + 1] == 0x85 || s[i + 1] == 0xa0) {
        2
    } else if n >= 3 && b == 0xe1 && s[i + 1] == 0x9a && s[i + 2] == 0x80 {
        3
    } else if n >= 3 && b == 0xe2 && s[i + 1] == 0x80 && ((0x80 <= s[i + 2] && s[i + 2] <= 0x8a)
        || s[i + 2] == 0xa8 || s[i + 2] == 0xa9 || s[i + 2] == 0xaf) {
        3
    } else if n >= 3 && b == 0xe2 && s[i + 1] == 0x81 && s[i + 2] == 0x9f {
        3
    } else if n >= 3 && b == 0xe3 && s[i + 1] == 0x80 && s[i + 2] == 0x80 {
        3
    } else {
        0
    }
}

/// The spans of the words of the bytes, cut at every white-space character as
/// `str::split_whitespace` cuts a string.
pub fn split_words(s: &[u8]) -> (r: Vec<(usize, usize)>)
    ensures
        r@.len() == words(s@).len(),
        forall|k: int|
            0 <= k < r@.len() ==> (r@[k].0 as int, r@[k].1 as int) == #[trigger] words(s@)[k],
{
    let mut out: Vec<(usize, usize)> = Vec::new();
    let mut open: Option<usize> = None;
    let mut i: usize = 0;
    assert(spans(out@) =~= Seq::<(int, int)>::empty());
    while i < s.len()
        invariant
            0 <= i <= s@.len(),
            words(s@) == scan_words(s@, i as int, open_start(open), spans(out@)),
        decreases s@.len() - i,
    {
        let l = space_len_at(s, i);
        if l > 0 {
            match open {
                Some(o) => {
                    let ghost prev = out@;
                    out.push((o, i));
                    assert(spans(out@) =~= spans(prev).push((o as int, i as int)));
                },
                None => {},
            }
            open = None;
            i = i + l;
        } else {
            match open {
                Some(_) => {},
                None => {
                    open = Some(i);
                },
            }
            i = i + 1;
        }
    }
    match open {
        Some(o) => {
            let ghost prev = out@;
            out.push((o, s.len()));
            assert(spans(out@) =~= spans(prev).push((o as int, s@.len() as int)));
        },
        None => {},
    }
    assert(spans(out@) == words(s@));
    out
}

/// Splitting into lines, from the left: the spans of the lines already closed,
/// and where the line under way started.
pub open spec fn line_scan(s: Seq<u8>) -> (Seq<(int, int)>, int)
    decreases s.len(),
{
    if s.len() == 0 {
        (Seq::empty(), 0)
    } else {
        let (done, start) = line_scan(s.drop_last());
        let i = s.len() - 1;
        if s.last() == 10 {
            let end = if i > start && s[i - 1] == 13 {
                i - 1
            } else {
                i
            };
            (done.push((start, end)), i + 1)
        } else {
            (done, start)
        }
    }
}

/// The spans `(start, end)` of the lines of `s`, as `str::lines` cuts them: at each
/// line feed, less a carriage return just before it; a last line without a line
/// feed counts where it is not empty.
pub open spec fn lines(s: Seq<u8>) -> Seq<(int, int)> {
    let (done, start) = line_scan(s);
    if start < s.len() {
        done.push((start, s.len() as int))
    } else {
        done
    }
}

/// The spans of the lines of the bytes.
pub fn split_lines(s: &[u8]) -> (r: Vec<(usize, usize)>)
    ensures
        r@.len() == lines(s@).len(),
        forall|k: int|
            0 <= k < r@.len() ==> (r@[k].0 as int, r@[k].1 as int) == #[trigger] lines(s@)[k],
{
    let mut out: Vec<(usize, usize)> = Vec::new();
    let mut start: usize = 0;
    let mut i: usize = 0;
    while i < s.len()
        invariant
            0 <= i <= s@.len(),
            start <= i,
            out@.len() == line_scan(s@.subrange(0, i as int)).0.len(),
            forall|k: int|
                0 <= k < out@.len() ==> (out@[k].0 as int, out@[k].1 as int)
                    == #[trigger] line_scan(s@.subrange(0, i as int)).0[k],
            line_scan(s@.subrange(0, i as int)).1 == start as int,
        decreases s@.len() - i,
    {
        let ghost prev = s@.subrange(0, i as int);
        if s[i] == 10 {
            let end = if i > start && s[i - 1] == 13 {
                i - 1
            } else {
                i
            };
            out.push((start, end));
            start = i + 1;
        }
        i = i + 1;
        assert(s@.subrange(0, i as int).drop_last() =~= prev);
    }
    assert(s@.subrange(0, s@.len() as int) =~= s@);
    if start < s.len() {
        out.push((start, s.len()));
    }
    out
}

proof fn lemma_scan_words_in_bounds(s: Seq<u8>, i: int, open: Option<int>, done: Seq<(int, int)>)
    requires
        0 <= i <= s.len(),
        forall|k: int| 0 <= k < done.len() ==> 0 <= (#[trigger] done[k]).0 <= done[k].1 <= i,
        open is Some ==> 0 <= open->Some_0 <= i,
    ensures
        forall|k: int|
            0 <= k < scan_words(s, i, open, done).len() ==> 0 <= (#[trigger] scan_words(
                s,
                i,
                open,
                done,
            )[k]).0 <= scan_words(s, i, open, done)[k].1 <= s.len(),
    decreases s.len() - i,
{
    if i >= s.len() {
        let r = scan_words(s, i, open, done);
        assert forall|k: int| 0 <= k < r.len() implies 0 <= (#[trigger] r[k]).0 <= r[k].1
            <= s.len() by {
            if k < done.len() {
                assert(r[k] == done[k]);
            }
        }
    } else if space_len(s, i) > 0 {
        let closed = match open {
            Some(start) => done.push((start, i)),
            None => done,
        };
        assert forall|k: int| 0 <= k < closed.len() implies 0 <= (#[trigger] closed[k]).0
            <= closed[k].1 <= i + space_len(s, i) by {
            if k < done.len() {
                assert(closed[k] == done[k]);
            }
        }
        assert(0 < space_len(s, i) <= s.len() - i);
        lemma_scan_words_in_bounds(s, i + space_len(s, i), None, closed);
        assert(scan_words(s, i, open, done) == scan_words(s, i + space_len(s, i), None, closed));
    } else {
        let still = match open {
            Some(start) => Some(start),
            None => Some(i),
        };
        lemma_scan_words_in_bounds(s, i + 1, still, done);
        assert(scan_words(s, i, open, done) == scan_words(s, i + 1, still, done));
    }
}

/// Every word span lies inside the text, its start at or before its end.
pub proof fn lemma_words_in_bounds(s: Seq<u8>)
    ensures
        forall|k: int|
            0 <= k < words(s).len() ==> 0 <= (#[trigger] words(s)[k]).0 <= words(s)[k].1
                <= s.len(),
{
    lemma_scan_words_in_bounds(s, 0, None, Seq::empty());
}

/// Whether two byte strings are equal.
pub fn bytes_equal(x: &[u8], y: &[u8]) -> (r: bool)
    ensures
        r == (x@ == y@),
{
    if x.len() != y.len() {
        return false;
    }
    let r = matches_at(x, y, 0);
    assert(x@.subrange(0, y@.len() as int) =~= x@);
    r
}

proof fn lemma_line_scan_in_bounds(s: Seq<u8>)
    ensures
        forall|k: int|
            0 <= k < line_scan(s).0.len() ==> 0 <= (#[trigger] line_scan(s).0[k]).0
                <= line_scan(s).0[k].1 <= s.len(),
        0 <= line_scan(s).1 <= s.len(),
    decreases s.len(),
{
    if s.len() > 0 {
        let p = s.drop_last();
        lemma_line_scan_in_bounds(p);
        let done = line_scan(p).0;
        if s.last() == 10 {
            assert forall|k: int| 0 <= k < line_scan(s).0.len() implies 0 <= (
            #[trigger] line_scan(s).0[k]).0 <= line_scan(s).0[k].1 <= s.len() by {
                if k < done.len() {
                    assert(line_scan(s).0[k] == done[k]);
                }
            }
        }
    }
}

/// Every line span lies inside the text, its start at or before its end.
pub proof fn lemma_lines_in_bounds(s: Seq<u8>)
    ensures
        forall|k: int|
            0 <= k < lines(s).len() ==> 0 <= (#[trigger] lines(s)[k]).0 <= lines(s)[k].1
                <= s.len(),
{
    lemma_line_scan_in_bounds(s);
    let done = line_scan(s).0;
    if line_scan(s).1 < s.len() {
        assert forall|k: int| 0 <= k < lines(s).len() implies 0 <= (#[trigger] lines(s)[k]).0
            <= lines(s)[k].1 <= s.len() by {
            if k < done.len() {
                assert(lines(s)[k] == done[k]);
            }
        }
    }
}

} // verus!
