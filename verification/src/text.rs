use vstd::prelude::*;

verus! {

/// The Unicode `White_Space` characters, the set that `char::is_whitespace` tests for.
pub open spec fn is_space(c: char) -> bool {
    let n = c as u32;
    ||| 0x09 <= n <= 0x0D
    ||| n == 0x20
    ||| n == 0x85
    ||| n == 0xA0
    ||| n == 0x1680
    ||| 0x2000 <= n <= 0x200A
    ||| n == 0x2028
    ||| n == 0x2029
    ||| n == 0x202F
    ||| n == 0x205F
    ||| n == 0x3000
}

/// Whether `c` separates words.
pub fn is_whitespace(c: char) -> (r: bool)
    ensures
        r == is_space(c),
{
    let n = c as u32;
    (0x09 <= n && n <= 0x0D) || n == 0x20 || n == 0x85 || n == 0xA0 || n == 0x1680 || (0x2000
        <= n && n <= 0x200A) || n == 0x2028 || n == 0x2029 || n == 0x202F || n == 0x205F || n
        == 0x3000
}

/// The pieces of `s` between line feeds, in order; a text without a line feed is one piece.
pub open spec fn split_lines(s: Seq<char>) -> Seq<Seq<char>>
    decreases s.len(),
{
    if s.len() == 0 {
        seq![Seq::empty()]
    } else {
        let prev = split_lines(s.drop_last());
        if s.last() == '\n' {
            prev.push(Seq::empty())
        } else {
            prev.update(prev.len() - 1, prev.last().push(s.last()))
        }
    }
}

/// The maximal runs of non-whitespace characters of `s`, in order.
pub open spec fn words(s: Seq<char>) -> Seq<Seq<char>>
    decreases s.len(),
{
    if s.len() == 0 {
        Seq::empty()
    } else {
        let prev = words(s.drop_last());
        let c = s.last();
        if is_space(c) {
            prev
        } else if s.len() >= 2 && !is_space(s[s.len() - 2]) {
            prev.update(prev.len() - 1, prev.last().push(c))
        } else {
            prev.push(seq![c])
        }
    }
}

/// The views of a vector of character vectors.
pub open spec fn views(v: Seq<Vec<char>>) -> Seq<Seq<char>> {
    v.map_values(|w: Vec<char>| w@)
}

/// Splits `s` at its line feeds.
pub fn lines_of(s: &[char]) -> (r: Vec<Vec<char>>)
    ensures
        views(r@) == split_lines(s@),
{
    let mut lines: Vec<Vec<char>> = Vec::new();
    lines.push(Vec::new());
    assert(s@.take(0) =~= Seq::<char>::empty());
    assert(views(lines@) =~= split_lines(s@.take(0)));
    let mut i: usize = 0;
    while i < s.len()
        invariant
            i <= s@.len(),
            views(lines@) == split_lines(s@.take(i as int)),
            lines@.len() >= 1,
        decreases s@.len() - i,
    {
        let c = s[i];
        assert(s@.take(i + 1).drop_last() =~= s@.take(i as int));
        if c == '\n' {
            lines.push(Vec::new());
            assert(views(lines@) =~= split_lines(s@.take(i + 1)));
        } else {
            let mut last = lines.pop().unwrap();
            last.push(c);
            lines.push(last);
            assert(views(lines@) =~= split_lines(s@.take(i + 1)));
        }
        i = i + 1;
    }
    assert(s@.take(s@.len() as int) =~= s@);
    lines
}

/// Splits `s` into its words, dropping all whitespace.
pub fn split_whitespace(s: &[char]) -> (r: Vec<Vec<char>>)
    ensures
        views(r@) == words(s@),
{
    let mut words_found: Vec<Vec<char>> = Vec::new();
    assert(s@.take(0) =~= Seq::<char>::empty());
    assert(views(words_found@) =~= words(s@.take(0)));
    let mut in_word = false;
    let mut i: usize = 0;
    while i < s.len()
        invariant
            i <= s@.len(),
            views(words_found@) == words(s@.take(i as int)),
            in_word == (i > 0 && !is_space(s@[i - 1])),
            in_word ==> words_found@.len() > 0,
        decreases s@.len() - i,
    {
        let c = s[i];
        let ghost pre = s@.take(i + 1);
        assert(pre.drop_last() =~= s@.take(i as int));
        assert(pre.last() == c);
        assert(i > 0 ==> pre[pre.len() - 2] == s@[i - 1]);
        if is_whitespace(c) {
            in_word = false;
        } else if in_word {
            assert(pre[pre.len() - 2] == s@[i - 1]);
            let ghost prev = views(words_found@);
            let ghost n = words_found@.len();
            let ghost before = words_found@;
            let mut last = words_found.pop().unwrap();
            assert(last@ == prev[n - 1]);
            last.push(c);
            words_found.push(last);
            assert(words_found@.len() == n);
            assert forall|k: int| 0 <= k < n - 1 implies views(words_found@)[k] == prev[k] by {
                assert(words_found@[k] == before[k]);
            }
            assert(views(words_found@) =~= prev.update(n - 1, prev[n - 1].push(c)));
            assert(pre.len() >= 2 && !is_space(pre[pre.len() - 2]));
            assert(!is_space(pre.last()));
            assert(words(pre.drop_last()) == prev);
            assert(words(pre) == prev.update(prev.len() - 1, prev.last().push(c)));
        } else {
            let ghost before = words_found@;
            let w = vec![c];
            assert(w@ =~= seq![c]);
            words_found.push(w);
            assert(views(words_found@) =~= views(before).push(seq![c]));
            assert(!(pre.len() >= 2 && !is_space(pre[pre.len() - 2])));
            assert(words(pre) == words(pre.drop_last()).push(seq![c]));
            in_word = true;
        }
        i = i + 1;
    }
    assert(s@.take(s@.len() as int) =~= s@);
    words_found
}

pub open spec fn is_digit(c: char) -> bool {
    '0' <= c <= '9'
}

/// The number that the decimal digits `d` spell.
pub open spec fn digits_value(d: Seq<char>) -> nat
    decreases d.len(),
{
    if d.len() == 0 {
        0
    } else {
        digits_value(d.drop_last()) * 10 + (d.last() as nat - '0' as nat) as nat
    }
}

/// `s` without a leading `+`.
pub open spec fn unsigned_part(s: Seq<char>) -> Seq<char> {
    if s.len() > 0 && s[0] == '+' {
        s.drop_first()
    } else {
        s
    }
}

pub open spec fn all_digits(d: Seq<char>) -> bool {
    forall|i: int| 0 <= i < d.len() ==> is_digit(#[trigger] d[i])
}

/// What `str::parse::<u8>` gives: an optional `+`, then one or more decimal digits whose value
/// is at most 255.
pub open spec fn parse_u8_spec(s: Seq<char>) -> Option<u8> {
    let d = unsigned_part(s);
    if d.len() > 0 && all_digits(d) && digits_value(d) <= 255 {
        Some(digits_value(d) as u8)
    } else {
        None
    }
}

proof fn lemma_digits_value_grows(d: Seq<char>, i: int, j: int)
    requires
        0 <= i <= j <= d.len(),
        forall|k: int| 0 <= k < d.len() ==> is_digit(#[trigger] d[k]),
    ensures
        digits_value(d.take(i)) <= digits_value(d.take(j)),
    decreases j - i,
{
    if i < j {
        lemma_digits_value_grows(d, i, j - 1);
        assert(d.take(j).drop_last() =~= d.take(j - 1));
        assert(is_digit(d[j - 1]));
    }
}

/// Parses an unsigned byte the way `str::parse::<u8>` does.
pub fn parse_u8(s: &[char]) -> (r: Option<u8>)
    ensures
        r == parse_u8_spec(s@),
{
    let start: usize = if s.len() > 0 && s[0] == '+' {
        1
    } else {
        0
    };
    let ghost d = unsigned_part(s@);
    assert(d =~= s@.subrange(start as int, s@.len() as int));
    if start >= s.len() {
        return None;
    }
    let mut value: u32 = 0;
    let mut i: usize = start;
    while i < s.len()
        invariant
            start <= i <= s@.len(),
            d =~= s@.subrange(start as int, s@.len() as int),
            d == unsigned_part(s@),
            value == digits_value(d.take(i - start)),
            value <= 255,
            forall|k: int| 0 <= k < i - start ==> is_digit(#[trigger] d[k]),
        decreases s@.len() - i,
    {
        let c = s[i];
        assert(d[i - start] == c);
        if !('0' <= c && c <= '9') {
            assert(!is_digit(d[i - start]));
            assert(!all_digits(d));
            return None;
        }
        let digit = (c as u32) - ('0' as u32);
        assert(d.take(i + 1 - start).drop_last() =~= d.take(i - start));
        assert(d.take(i + 1 - start).last() == c);
        value = value * 10 + digit;
        assert(value == digits_value(d.take(i + 1 - start)));
        i = i + 1;
        if value > 255 {
            proof {
                if all_digits(d) {
                    lemma_digits_value_grows(d, i - start, d.len() as int);
                    assert(d.take(d.len() as int) =~= d);
                }
            }
            return None;
        }
    }
    assert(d.take(d.len() as int) =~= d);
    assert(all_digits(d));
    Some(value as u8)
}

/// Whether two character sequences are equal.
pub fn chars_eq(a: &[char], b: &[char]) -> (r: bool)
    ensures
        r == (a@ == b@),
{
    if a.len() != b.len() {
        return false;
    }
    let mut i: usize = 0;
    while i < a.len()
        invariant
            i <= a@.len(),
            a@.len() == b@.len(),
            forall|k: int| 0 <= k < i ==> a@[k] == b@[k],
        decreases a@.len() - i,
    {
        if a[i] != b[i] {
            return false;
        }
        i = i + 1;
    }
    assert(a@ =~= b@);
    true
}

} // verus!
