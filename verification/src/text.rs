use vstd::prelude::*;

verus! {

/// `String::push` appends one character to the end of the string (std documentation:
/// "Appends the given char to the end of this String").
pub assume_specification[ String::push ](s: &mut String, ch: char)
    ensures
        final(s)@ == old(s)@.push(ch),
;

} // verus!

verus! {

/// The characters of `s`, in order.
pub fn collect_chars(s: &str) -> (v: Vec<char>)
    ensures
        v@ == s@,
{
    broadcast use vstd::string::group_string_axioms;

    let mut v: Vec<char> = Vec::new();
    for c in it: s.chars()
        invariant
            v@ == it.seq().take(it.index() as int),
    {
        v.push(c);
    }
    assert(v@ =~= s@);
    v
}

} // verus!

verus! {

// ---------------------------------------------------------------------------
// Words of a command line
// ---------------------------------------------------------------------------

/// Whether `c` has the Unicode White_Space property.
pub open spec fn is_white_space(c: char) -> bool {
    ('\u{9}' <= c && c <= '\u{d}') || c == ' ' || c == '\u{85}' || c == '\u{a0}' || c
        == '\u{1680}' || ('\u{2000}' <= c && c <= '\u{200a}') || c == '\u{2028}' || c
        == '\u{2029}' || c == '\u{202f}' || c == '\u{205f}' || c == '\u{3000}'
}

/// Whether `c` has the Unicode White_Space property.
pub fn white_space(c: char) -> (b: bool)
    ensures
        b == is_white_space(c),
{
    ('\u{9}' <= c && c <= '\u{d}') || c == ' ' || c == '\u{85}' || c == '\u{a0}' || c
        == '\u{1680}' || ('\u{2000}' <= c && c <= '\u{200a}') || c == '\u{2028}' || c
        == '\u{2029}' || c == '\u{202f}' || c == '\u{205f}' || c == '\u{3000}'
}

/// The maximal runs of characters of `s` that are not white space, in order.
pub open spec fn words(s: Seq<char>) -> Seq<Seq<char>>
    decreases s.len(),
{
    if s.len() == 0 {
        Seq::empty()
    } else {
        let w = words(s.drop_last());
        let c = s.last();
        if is_white_space(c) {
            w
        } else if s.len() >= 2 && !is_white_space(s[s.len() - 2]) && w.len() > 0 {
            w.update(w.len() - 1, w.last().push(c))
        } else {
            w.push(seq![c])
        }
    }
}

/// The words of `s`: its maximal runs of characters that are not white space.
pub fn split_whitespace(s: &str) -> (v: Vec<Vec<char>>)
    ensures
        v@.len() == words(s@).len(),
        forall|i: int| 0 <= i < v@.len() ==> #[trigger] v@[i]@ == words(s@)[i],
{
    let chars = collect_chars(s);
    let mut v: Vec<Vec<char>> = Vec::new();
    let n = chars.len();
    let mut i: usize = 0;
    while i < n
        invariant
            n == chars@.len(),
            chars@ == s@,
            i <= n,
            v@.len() == words(chars@.take(i as int)).len(),
            forall|k: int| 0 <= k < v@.len() ==> #[trigger] v@[k]@ == words(chars@.take(i as int))[k],
        decreases n - i,
    {
        let c = chars[i];
        proof {
            assert(chars@.take(i + 1).drop_last() =~= chars@.take(i as int));
        }
        if white_space(c) {
        } else if i >= 1 && !white_space(chars[i - 1]) && v.len() > 0 {
            let mut last = v.pop().unwrap();
            last.push(c);
            v.push(last);
        } else {
            v.push(vec![c]);
        }
        i = i + 1;
        proof {
            let t = chars@.take(i as int);
            assert(t.last() == c);
            if i >= 2 {
                assert(t[t.len() - 2] == chars@[i - 2]);
            }
        }
    }
    proof {
        assert(chars@.take(n as int) =~= chars@);
    }
    v
}

/// The words joined by one space each.
pub open spec fn join_words(ws: Seq<Seq<char>>) -> Seq<char>
    decreases ws.len(),
{
    if ws.len() == 0 {
        Seq::empty()
    } else if ws.len() == 1 {
        ws[0]
    } else {
        join_words(ws.drop_last()) + seq![' '] + ws.last()
    }
}

/// The words `ws[from..]` joined by one space each.
pub fn join_words_from(ws: &Vec<Vec<char>>, from: usize) -> (s: String)
    requires
        from <= ws@.len(),
    ensures
        s@ == join_words(ws@.skip(from as int).map_values(|w: Vec<char>| w@)),
{
    let ghost views = ws@.skip(from as int).map_values(|w: Vec<char>| w@);
    let mut s = String::new();
    let mut i: usize = from;
    while i < ws.len()
        invariant
            from <= i <= ws@.len(),
            views == ws@.skip(from as int).map_values(|w: Vec<char>| w@),
            s@ == join_words(views.take(i - from)),
        decreases ws.len() - i,
    {
        let ghost before = s@;
        if i > from {
            s.push(' ');
        }
        let w = &ws[i];
        let mut j: usize = 0;
        while j < w.len()
            invariant
                j <= w@.len(),
                s@ == (if i > from {
                    before + seq![' ']
                } else {
                    before
                }) + w@.take(j as int),
            decreases w.len() - j,
        {
            s.push(w[j]);
            j = j + 1;
            proof {
                assert(w@.take(j as int) =~= w@.take(j - 1).push(w@[j - 1]));
            }
        }
        proof {
            assert(w@.take(j as int) =~= w@);
            let t = views.take(i + 1 - from);
            assert(t.drop_last() =~= views.take(i - from));
            assert(t.last() == w@);
        }
        i = i + 1;
    }
    proof {
        assert(views.take(ws@.len() - from) =~= views);
    }
    s
}

/// Whether the characters `w` are those of `lit`.
pub fn word_is(w: &Vec<char>, lit: &str) -> (b: bool)
    ensures
        b == (w@ == lit@),
{
    let l = collect_chars(lit);
    if w.len() != l.len() {
        return false;
    }
    let mut i: usize = 0;
    while i < w.len()
        invariant
            w@.len() == l@.len(),
            l@ == lit@,
            i <= w@.len(),
            forall|k: int| 0 <= k < i ==> w@[k] == l@[k],
        decreases w.len() - i,
    {
        if w[i] != l[i] {
            return false;
        }
        i = i + 1;
    }
    assert(w@ =~= lit@);
    true
}

// ---------------------------------------------------------------------------
// Numbers
// ---------------------------------------------------------------------------

/// Whether `c` is an ASCII decimal digit.
pub open spec fn is_digit(c: char) -> bool {
    '0' <= c && c <= '9'
}

/// The value of the decimal digits `d`, most significant first.
pub open spec fn digits_value(d: Seq<char>) -> nat
    decreases d.len(),
{
    if d.len() == 0 {
        0
    } else {
        digits_value(d.drop_last()) * 10 + ((d.last() as u32) - 48) as nat
    }
}

/// `s` without its leading `+`, if it has one.
pub open spec fn unsigned_part(s: Seq<char>) -> Seq<char> {
    if s.len() > 0 && s[0] == '+' {
        s.drop_first()
    } else {
        s
    }
}

/// Whether every character of `d` is a decimal digit.
pub open spec fn all_digits(d: Seq<char>) -> bool {
    forall|i: int| 0 <= i < d.len() ==> #[trigger] is_digit(d[i])
}

/// `s` read as a `usize` the way `str::parse::<usize>` reads it: an optional `+`, then one
/// or more decimal digits, of a value that fits.
pub open spec fn parse_usize(s: Seq<char>) -> Option<usize> {
    let d = unsigned_part(s);
    if d.len() > 0 && all_digits(d) && digits_value(d) <= usize::MAX {
        Some(digits_value(d) as usize)
    } else {
        None
    }
}

proof fn lemma_digits_value_prefix(d: Seq<char>, k: int)
    requires
        0 <= k <= d.len(),
        forall|i: int| 0 <= i < d.len() ==> #[trigger] is_digit(d[i]),
    ensures
        digits_value(d.take(k)) <= digits_value(d),
    decreases d.len(),
{
    if k < d.len() {
        let dl = d.drop_last();
        assert(dl.take(k) =~= d.take(k));
        assert forall|i: int| 0 <= i < dl.len() implies #[trigger] is_digit(dl[i]) by {
            assert(dl[i] == d[i]);
        }
        lemma_digits_value_prefix(dl, k);
    } else {
        assert(d.take(k) =~= d);
    }
}

/// `s` read as a `usize`, as `str::parse::<usize>` reads it.
pub fn parse_number(s: &Vec<char>) -> (r: Option<usize>)
    ensures
        r == parse_usize(s@),
{
    let n = s.len();
    let mut i: usize = 0;
    if n > 0 && s[0] == '+' {
        i = 1;
    }
    let ghost d = unsigned_part(s@);
    let start = i;
    assert(d =~= s@.skip(start as int));
    if start == n {
        return None;
    }
    let mut acc: usize = 0;
    while i < n
        invariant
            start <= i <= n,
            n == s@.len(),
            d == s@.skip(start as int),
            d == unsigned_part(s@),
            d.len() > 0,
            forall|k: int| 0 <= k < i - start ==> #[trigger] is_digit(d[k]),
            acc == digits_value(d.take(i - start)),
        decreases n - i,
    {
        let c = s[i];
        if !('0' <= c && c <= '9') {
            assert(!is_digit(d[i - start]));
            return None;
        }
        let digit: usize = ((c as u32) - 48) as usize;
        proof {
            assert(d.take(i - start + 1).drop_last() =~= d.take(i - start));
        }
        let next = match acc.checked_mul(10) {
            Some(m) => m.checked_add(digit),
            None => None,
        };
        match next {
            Some(v) => {
                acc = v;
            },
            None => {
                proof {
                    if all_digits(d) {
                        lemma_digits_value_prefix(d, i - start + 1);
                    }
                }
                return None;
            },
        }
        i = i + 1;
    }
    assert(d.take(n - start) =~= d);
    Some(acc)
}

} // verus!
