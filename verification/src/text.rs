//! Characters and strings: whitespace, trimming, line splitting, decimal
//! numbers and the few conversions between `&str`, `String` and `Vec<char>`.

use vstd::prelude::*;

verus! {

/// `char::is_whitespace`: the characters with the Unicode `White_Space` property.
pub open spec fn is_ws(c: char) -> bool {
    let n = c as u32;
    ||| 0x09 <= n <= 0x0d
    ||| n == 0x20
    ||| n == 0x85
    ||| n == 0xa0
    ||| n == 0x1680
    ||| 0x2000 <= n <= 0x200a
    ||| n == 0x2028
    ||| n == 0x2029
    ||| n == 0x202f
    ||| n == 0x205f
    ||| n == 0x3000
}

/// Whether `c` is whitespace in the sense of `char::is_whitespace`.
pub fn is_whitespace(c: char) -> (r: bool)
    ensures
        r == is_ws(c),
{
    let n: u32 = c as u32;
    (0x09 <= n && n <= 0x0d) || n == 0x20 || n == 0x85 || n == 0xa0 || n == 0x1680 || (0x2000
        <= n && n <= 0x200a) || n == 0x2028 || n == 0x2029 || n == 0x202f || n == 0x205f || n
        == 0x3000
}

/// The characters of a string slice, in order.
pub fn chars_of(s: &str) -> (r: Vec<char>)
    ensures
        r@ == s@,
{
    let mut r: Vec<char> = Vec::new();
    for c in it: s.chars()
        invariant
            r@ == it.seq().take(it.index() as int),
            it.seq() == s@,
    {
        r.push(c);
    }
    r
}

/// `String::pop`: removes the last character and returns it, `None` for an
/// empty string.
#[verifier::external_body]
pub(crate) fn pop_char(s: &mut String) -> (r: Option<char>)
    ensures
        old(s)@.len() > 0 ==> r == Some(old(s)@.last()) && final(s)@ == old(s)@.drop_last(),
        old(s)@.len() == 0 ==> r is None && final(s)@ == old(s)@,
{
    s.pop()
}

/// `String::push`.
#[verifier::external_body]
pub(crate) fn push_char(s: &mut String, c: char)
    ensures
        final(s)@ == old(s)@.push(c),
{
    s.push(c);
}

/// The string made of the characters `v[from..to]`.
pub fn string_of_range(v: &Vec<char>, from: usize, to: usize) -> (r: String)
    requires
        from <= to <= v.len(),
    ensures
        r@ == v@.subrange(from as int, to as int),
{
    let mut r = String::new();
    let mut i = from;
    while i < to
        invariant
            from <= i <= to <= v.len(),
            r@ == v@.subrange(from as int, i as int),
        decreases to - i,
    {
        push_char(&mut r, v[i]);
        i = i + 1;
        assert(r@ =~= v@.subrange(from as int, i as int));
    }
    r
}

/// The string made of the characters of `v`.
pub fn string_of(v: &Vec<char>) -> (r: String)
    ensures
        r@ == v@,
{
    let r = string_of_range(v, 0, v.len());
    assert(v@.subrange(0, v@.len() as int) =~= v@);
    r
}


/// `s` without its leading whitespace (`str::trim_start`).
pub open spec fn trim_start(s: Seq<char>) -> Seq<char>
    decreases s.len(),
{
    if s.len() > 0 && is_ws(s[0]) {
        trim_start(s.drop_first())
    } else {
        s
    }
}

/// `s` without its trailing whitespace (`str::trim_end`).
pub open spec fn trim_end(s: Seq<char>) -> Seq<char>
    decreases s.len(),
{
    if s.len() > 0 && is_ws(s.last()) {
        trim_end(s.drop_last())
    } else {
        s
    }
}

/// `s` without leading and trailing whitespace (`str::trim`).
pub open spec fn trim(s: Seq<char>) -> Seq<char> {
    trim_end(trim_start(s))
}

/// The number of characters before the first whitespace character of `s`
/// (all of them when there is none).
pub open spec fn word_len(s: Seq<char>) -> nat
    decreases s.len(),
{
    if s.len() == 0 || is_ws(s[0]) {
        0
    } else {
        1 + word_len(s.drop_first())
    }
}

/// The index of the first occurrence of `c` in `s`.
pub open spec fn first_index_of(s: Seq<char>, c: char) -> Option<int>
    decreases s.len(),
{
    if s.len() == 0 {
        None
    } else if s[0] == c {
        Some(0)
    } else {
        match first_index_of(s.drop_first(), c) {
            Some(i) => Some(i + 1),
            None => None,
        }
    }
}

/// `first_index_of` finds the first occurrence, and nothing when there is none.
pub proof fn lemma_first_index_of(s: Seq<char>, c: char)
    ensures
        match first_index_of(s, c) {
            Some(k) => 0 <= k < s.len() && s[k] == c && forall|j: int| 0 <= j < k ==> s[j] != c,
            None => forall|j: int| 0 <= j < s.len() ==> s[j] != c,
        },
    decreases s.len(),
{
    if s.len() > 0 && s[0] != c {
        lemma_first_index_of(s.drop_first(), c);
        assert forall|j: int| 1 <= j < s.len() implies s[j] == s.drop_first()[j - 1] by {}
    }
}

/// Skips whitespace: the first index at or after `from` where `v[from..to]`
/// trimmed at its start begins.
pub fn skip_ws(v: &Vec<char>, from: usize, to: usize) -> (r: usize)
    requires
        from <= to <= v.len(),
    ensures
        from <= r <= to,
        v@.subrange(r as int, to as int) == trim_start(v@.subrange(from as int, to as int)),
{
    let mut a = from;
    while a < to && is_whitespace(v[a])
        invariant
            from <= a <= to <= v.len(),
            trim_start(v@.subrange(a as int, to as int)) == trim_start(
                v@.subrange(from as int, to as int),
            ),
        decreases to - a,
    {
        assert(v@.subrange(a as int, to as int).drop_first() =~= v@.subrange(
            a + 1,
            to as int,
        ));
        a = a + 1;
    }
    a
}

/// The end of `v[from..to]` once its trailing whitespace is dropped.
pub fn trim_end_at(v: &Vec<char>, from: usize, to: usize) -> (r: usize)
    requires
        from <= to <= v.len(),
    ensures
        from <= r <= to,
        v@.subrange(from as int, r as int) == trim_end(v@.subrange(from as int, to as int)),
{
    let mut b = to;
    while b > from && is_whitespace(v[b - 1])
        invariant
            from <= b <= to <= v.len(),
            trim_end(v@.subrange(from as int, b as int)) == trim_end(
                v@.subrange(from as int, to as int),
            ),
        decreases b - from,
    {
        assert(v@.subrange(from as int, b as int).drop_last() =~= v@.subrange(
            from as int,
            b - 1,
        ));
        b = b - 1;
    }
    b
}

/// The index of the first whitespace character in `v[from..to]`, or `to`.
pub fn word_end_at(v: &Vec<char>, from: usize, to: usize) -> (r: usize)
    requires
        from <= to <= v.len(),
    ensures
        from <= r <= to,
        r - from == word_len(v@.subrange(from as int, to as int)),
{
    let mut b = from;
    while b < to && !is_whitespace(v[b])
        invariant
            from <= b <= to <= v.len(),
            word_len(v@.subrange(from as int, to as int)) == (b - from) + word_len(
                v@.subrange(b as int, to as int),
            ),
        decreases to - b,
    {
        assert(v@.subrange(b as int, to as int).drop_first() =~= v@.subrange(b + 1, to as int));
        b = b + 1;
    }
    b
}

/// The index of the first `c` in `v[from..to]`.
pub fn find_char(v: &Vec<char>, from: usize, to: usize, c: char) -> (r: Option<usize>)
    requires
        from <= to <= v.len(),
    ensures
        match r {
            Some(k) => from <= k < to && first_index_of(v@.subrange(from as int, to as int), c)
                == Some(k - from),
            None => first_index_of(v@.subrange(from as int, to as int), c) is None,
        },
{
    let mut k = from;
    while k < to
        invariant
            from <= k <= to <= v.len(),
            forall|j: int| from <= j < k ==> v@[j] != c,
        decreases to - k,
    {
        if v[k] == c {
            proof {
                lemma_first_index_of(v@.subrange(from as int, to as int), c);
                let s = v@.subrange(from as int, to as int);
                match first_index_of(s, c) {
                    Some(i) => {
                        assert(s[k - from] == c);
                        assert(s[i] == v@[from + i]);
                    },
                    None => {
                        assert(s[k - from] == c);
                    },
                }
            }
            return Some(k);
        }
        k = k + 1;
    }
    proof {
        let s = v@.subrange(from as int, to as int);
        lemma_first_index_of(s, c);
        if first_index_of(s, c) is Some {
            let i = first_index_of(s, c)->0;
            assert(s[i] == v@[from + i]);
        }
    }
    None
}


/// The pieces of `s` between the occurrences of `sep` (`str::split`): one more
/// piece than there are separators.
pub open spec fn split_on(s: Seq<char>, sep: char) -> Seq<Seq<char>>
    decreases s.len(),
{
    if s.len() == 0 {
        seq![Seq::empty()]
    } else {
        let pieces = split_on(s.drop_last(), sep);
        if s.last() == sep {
            pieces.push(Seq::empty())
        } else {
            pieces.update(pieces.len() - 1, pieces.last().push(s.last()))
        }
    }
}

/// `split_on` never gives an empty list of pieces.
pub proof fn lemma_split_on_nonempty(s: Seq<char>, sep: char)
    ensures
        split_on(s, sep).len() >= 1,
    decreases s.len(),
{
    if s.len() > 0 {
        lemma_split_on_nonempty(s.drop_last(), sep);
    }
}

/// `str::splitn(3, sep)`: at most three pieces, the last holding the rest.
pub open spec fn split3(s: Seq<char>, sep: char) -> Seq<Seq<char>> {
    match first_index_of(s, sep) {
        None => seq![s],
        Some(i) => {
            let rest = s.skip(i + 1);
            match first_index_of(rest, sep) {
                None => seq![s.take(i), rest],
                Some(j) => seq![s.take(i), rest.take(j), rest.skip(j + 1)],
            }
        },
    }
}

/// The first whitespace-separated word of `s` (empty when `s` holds none).
pub open spec fn first_word(s: Seq<char>) -> Seq<char> {
    let t = trim_start(s);
    t.take(word_len(t) as int)
}

/// The program part of a shell command: its first word, or the whole command
/// when it holds no word.
pub open spec fn program_name(command: Seq<char>) -> Seq<char> {
    let w = first_word(command);
    if w.len() == 0 {
        command
    } else {
        w
    }
}

/// The program part of a shell command (`command.split_whitespace().next()`,
/// or the command itself when it has no word).
pub fn command_name(command: &str) -> (r: String)
    ensures
        r@ == program_name(command@),
{
    let v = chars_of(command);
    let a: usize = skip_ws(&v, 0, v.len());
    let b: usize = word_end_at(&v, a, v.len());
    proof {
        assert(v@.subrange(0, v@.len() as int) =~= v@);
        let t = v@.subrange(a as int, v@.len() as int);
        assert(t.take(word_len(t) as int) =~= v@.subrange(a as int, b as int));
    }
    if a == b {
        String::from_str(command)
    } else {
        string_of_range(&v, a, b)
    }
}

/// Lexicographic order of character sequences by code point, which is the
/// order of `String` (byte order of UTF-8).
pub open spec fn seq_lt(a: Seq<char>, b: Seq<char>) -> bool
    decreases a.len(),
{
    if a.len() == 0 {
        b.len() > 0
    } else if b.len() == 0 {
        false
    } else if a[0] != b[0] {
        (a[0] as int) < (b[0] as int)
    } else {
        seq_lt(a.drop_first(), b.drop_first())
    }
}

/// `seq_lt` is irreflexive.
pub proof fn lemma_seq_lt_irreflexive(a: Seq<char>)
    ensures
        !seq_lt(a, a),
    decreases a.len(),
{
    if a.len() > 0 {
        lemma_seq_lt_irreflexive(a.drop_first());
    }
}

/// `seq_lt` is total on distinct sequences and asymmetric.
pub proof fn lemma_seq_lt_total(a: Seq<char>, b: Seq<char>)
    ensures
        a != b ==> (seq_lt(a, b) || seq_lt(b, a)),
        !(seq_lt(a, b) && seq_lt(b, a)),
    decreases a.len(),
{
    if a.len() > 0 && b.len() > 0 && a[0] == b[0] {
        lemma_seq_lt_total(a.drop_first(), b.drop_first());
        if a != b {
            assert(a =~= seq![a[0]] + a.drop_first());
            assert(b =~= seq![b[0]] + b.drop_first());
        }
    }
    if a.len() == 0 && b.len() == 0 {
        assert(a =~= b);
    }
    if a.len() > 0 && b.len() > 0 && a[0] != b[0] {
        assert((a[0] as int) != (b[0] as int));
    }
}

/// `seq_lt` is transitive.
pub proof fn lemma_seq_lt_transitive(a: Seq<char>, b: Seq<char>, c: Seq<char>)
    requires
        seq_lt(a, b),
        seq_lt(b, c),
    ensures
        seq_lt(a, c),
    decreases a.len(),
{
    if a.len() > 0 && b.len() > 0 && c.len() > 0 && a[0] == b[0] && b[0] == c[0] {
        lemma_seq_lt_transitive(a.drop_first(), b.drop_first(), c.drop_first());
    }
}

/// Whether `a[..]` comes before `b[..]` in `String` order.
pub fn less_than(a: &Vec<char>, b: &Vec<char>) -> (r: bool)
    ensures
        r == seq_lt(a@, b@),
{
    let mut i: usize = 0;
    assert(a@.skip(0) =~= a@);
    assert(b@.skip(0) =~= b@);
    while i < a.len() && i < b.len() && a[i] == b[i]
        invariant
            i <= a.len(),
            i <= b.len(),
            seq_lt(a@, b@) == seq_lt(a@.skip(i as int), b@.skip(i as int)),
        decreases a.len() - i,
    {
        assert(a@.skip(i as int).drop_first() =~= a@.skip(i + 1));
        assert(b@.skip(i as int).drop_first() =~= b@.skip(i + 1));
        i = i + 1;
    }
    if i == a.len() {
        i < b.len()
    } else if i == b.len() {
        false
    } else {
        a[i] < b[i]
    }
}

/// What `str::to_lowercase` gives for `s`: Unicode's lowercase mapping, applied
/// character by character, with its context rule for the Greek capital sigma.
pub uninterp spec fn lowercase(s: Seq<char>) -> Seq<char>;

/// `str::to_lowercase`, whose result depends on its argument alone.
#[verifier::external_body]
pub(crate) fn to_lowercase(s: &str) -> (r: String)
    ensures
        r@ == lowercase(s@),
{
    s.to_lowercase()
}


/// The decimal digit character for `d < 10`.
pub open spec fn digit_char(d: nat) -> char {
    ((d + 48) as u8) as char
}

/// The decimal representation of `n`, without leading zeros.
pub open spec fn decimal(n: nat) -> Seq<char>
    decreases n,
{
    if n < 10 {
        seq![digit_char(n)]
    } else {
        decimal(n / 10).push(digit_char(n % 10))
    }
}

/// Appends the decimal representation of `n` to `s` (as `u64::to_string` writes it).
pub fn push_decimal(s: &mut String, n: u64)
    ensures
        final(s)@ == old(s)@ + decimal(n as nat),
    decreases n,
{
    if n >= 10 {
        push_decimal(s, n / 10);
    }
    let d: u8 = (n % 10) as u8;
    push_char(s, (d + 48u8) as char);
    assert(d + 48 == (n % 10) + 48);
}


/// Whether `c` is one of the ASCII digits `0` to `9`.
pub open spec fn is_digit(c: char) -> bool {
    48 <= (c as u32) <= 57
}

/// The number that a sequence of ASCII digits writes in decimal.
pub open spec fn digits_value(s: Seq<char>) -> nat
    decreases s.len(),
{
    if s.len() == 0 {
        0
    } else {
        digits_value(s.drop_last()) * 10 + ((s.last() as u32) - 48) as nat
    }
}

/// `s` without one leading `+`.
pub open spec fn unsigned_digits(s: Seq<char>) -> Seq<char> {
    if s.len() > 0 && s[0] == '+' {
        s.drop_first()
    } else {
        s
    }
}

/// What `u32::from_str` reads from `s`: an optional `+`, then one or more ASCII
/// digits whose value fits in a `u32`; anything else is an error.
pub open spec fn parse_u32(s: Seq<char>) -> Option<u32> {
    let d = unsigned_digits(s);
    if d.len() > 0 && (forall|i: int| 0 <= i < d.len() ==> is_digit(d[i])) && digits_value(d)
        <= u32::MAX {
        Some(digits_value(d) as u32)
    } else {
        None
    }
}

/// A prefix of a digit sequence never has a greater value.
proof fn lemma_digits_value_prefix(s: Seq<char>, k: int)
    requires
        0 <= k <= s.len(),
        forall|i: int| 0 <= i < s.len() ==> is_digit(s[i]),
    ensures
        digits_value(s.take(k)) <= digits_value(s),
    decreases s.len(),
{
    if k < s.len() {
        lemma_digits_value_prefix(s.drop_last(), k);
        assert(s.drop_last().take(k) =~= s.take(k));
    } else {
        assert(s.take(k) =~= s);
    }
}

/// Reads `v[from..to]` as `u32::from_str` does, `None` where it fails.
pub fn parse_u32_at(v: &Vec<char>, from: usize, to: usize) -> (r: Option<u32>)
    requires
        from <= to <= v.len(),
    ensures
        r == parse_u32(v@.subrange(from as int, to as int)),
{
    let ghost s = v@.subrange(from as int, to as int);
    let mut a = from;
    if a < to && v[a] == '+' {
        a = a + 1;
    }
    let ghost d = v@.subrange(a as int, to as int);
    assert(d =~= unsigned_digits(s));
    if a == to {
        return None;
    }
    let mut val: u64 = 0;
    let mut k = a;
    while k < to
        invariant
            from <= a <= k <= to <= v.len(),
            d == v@.subrange(a as int, to as int),
            s == v@.subrange(from as int, to as int),
            d == unsigned_digits(s),
            val == digits_value(v@.subrange(a as int, k as int)),
            val <= u32::MAX,
            forall|i: int| a <= i < k ==> is_digit(v@[i]),
        decreases to - k,
    {
        let n: u32 = v[k] as u32;
        if n < 48 || n > 57 {
            assert(!is_digit(d[k - a]));
            assert(!(forall|i: int| 0 <= i < d.len() ==> is_digit(d[i])));
            return None;
        }
        assert(v@.subrange(a as int, k + 1).drop_last() =~= v@.subrange(a as int, k as int));
        val = val * 10 + (n - 48) as u64;
        k = k + 1;
        if val > 0xffff_ffff {
            proof {
                if forall|i: int| 0 <= i < d.len() ==> is_digit(d[i]) {
                    lemma_digits_value_prefix(d, k - a);
                    assert(d.take(k - a) =~= v@.subrange(a as int, k as int));
                }
            }
            return None;
        }
    }
    assert(d =~= v@.subrange(a as int, k as int));
    Some(val as u32)
}

/// Reading back the decimal representation of a `u32` gives the number.
pub proof fn lemma_parse_decimal(n: nat)
    requires
        n <= u32::MAX,
    ensures
        parse_u32(decimal(n)) == Some(n as u32),
{
    lemma_decimal_digits(n);
}

/// `decimal(n)` is a non-empty sequence of digits whose value is `n`.
pub proof fn lemma_decimal_digits(n: nat)
    ensures
        decimal(n).len() > 0,
        forall|i: int| 0 <= i < decimal(n).len() ==> is_digit(#[trigger] decimal(n)[i]),
        digits_value(decimal(n)) == n,
    decreases n,
{
    if n >= 10 {
        lemma_decimal_digits(n / 10);
        let p = decimal(n / 10);
        assert(decimal(n).drop_last() =~= p);
        let d = n % 10;
        assert(decimal(n).last() == digit_char(d));
        assert((digit_char(d) as u32) == d + 48);
        assert(n == (n / 10) * 10 + n % 10) by (nonlinear_arith);
        assert forall|i: int| 0 <= i < decimal(n).len() implies is_digit(
            #[trigger] decimal(n)[i],
        ) by {
            if i < p.len() {
                assert(decimal(n)[i] == p[i]);
            }
        }
        assert(digits_value(decimal(n)) == digits_value(p) * 10 + d);
    } else {
        assert(decimal(n).drop_last() =~= Seq::<char>::empty());
        assert((digit_char(n) as u32) == n + 48);
        assert(digits_value(decimal(n)) == digits_value(Seq::<char>::empty()) * 10 + n);
    }
}


/// Whether two character vectors hold the same characters.
pub fn same_chars(a: &Vec<char>, b: &Vec<char>) -> (r: bool)
    ensures
        r == (a@ == b@),
{
    if a.len() != b.len() {
        return false;
    }
    let mut i: usize = 0;
    while i < a.len()
        invariant
            a.len() == b.len(),
            i <= a.len(),
            forall|j: int| 0 <= j < i ==> a@[j] == b@[j],
        decreases a.len() - i,
    {
        if a[i] != b[i] {
            return false;
        }
        i = i + 1;
    }
    assert(a@ =~= b@);
    true
}


/// The character sequences held by a list of character vectors.
pub open spec fn seqs_of(v: Seq<Vec<char>>) -> Seq<Seq<char>> {
    v.map_values(|x: Vec<char>| x@)
}

/// The lines of `s`: its pieces between newline characters.
pub fn split_lines(s: &str) -> (r: Vec<Vec<char>>)
    ensures
        seqs_of(r@) == split_on(s@, '\n'),
{
    let v = chars_of(s);
    let mut lines: Vec<Vec<char>> = Vec::new();
    let mut cur: Vec<char> = Vec::new();
    let mut i: usize = 0;
    assert(v@.take(0) =~= Seq::<char>::empty());
    assert(seqs_of(lines@).push(cur@) =~= split_on(v@.take(0), '\n'));
    while i < v.len()
        invariant
            i <= v.len(),
            v@ == s@,
            seqs_of(lines@).push(cur@) == split_on(v@.take(i as int), '\n'),
        decreases v.len() - i,
    {
        let c = v[i];
        let ghost before = v@.take(i as int);
        assert(v@.take(i + 1).drop_last() =~= before);
        assert(v@.take(i + 1).last() == c);
        if c == '\n' {
            lines.push(cur);
            cur = Vec::new();
            assert(seqs_of(lines@).push(cur@) =~= split_on(before, '\n').push(Seq::empty()));
        } else {
            let ghost old_cur = cur@;
            cur.push(c);
            proof {
                lemma_split_on_nonempty(before, '\n');
                let p = split_on(before, '\n');
                assert(p.last() == old_cur);
                assert(seqs_of(lines@).push(cur@) =~= p.update(p.len() - 1, p.last().push(c)));
            }
        }
        i = i + 1;
    }
    lines.push(cur);
    assert(v@.take(v@.len() as int) =~= v@);
    lines
}


/// A copy of `v[from..to]`.
pub fn copy_range(v: &Vec<char>, from: usize, to: usize) -> (r: Vec<char>)
    requires
        from <= to <= v.len(),
    ensures
        r@ == v@.subrange(from as int, to as int),
{
    let mut r: Vec<char> = Vec::new();
    let mut i = from;
    while i < to
        invariant
            from <= i <= to <= v.len(),
            r@ == v@.subrange(from as int, i as int),
        decreases to - i,
    {
        r.push(v[i]);
        i = i + 1;
        assert(r@ =~= v@.subrange(from as int, i as int));
    }
    r
}

/// The fields of a line of a config file: nothing for a blank line or a
/// comment (a line starting with `#` once trimmed), else the trimmed line cut
/// at its first two tabs.
pub open spec fn line_fields(line: Seq<char>) -> Option<Seq<Seq<char>>> {
    let t = trim(line);
    if t.len() == 0 || t[0] == '#' {
        None
    } else {
        Some(split3(t, '\t'))
    }
}

/// The fields of a line of a config file, as `line_fields` describes them.
pub fn fields_of_line(line: &Vec<char>) -> (r: Option<Vec<Vec<char>>>)
    ensures
        match r {
            Some(f) => line_fields(line@) == Some(seqs_of(f@)),
            None => line_fields(line@) is None,
        },
{
    let n: usize = line.len();
    let a: usize = skip_ws(line, 0, n);
    let b: usize = trim_end_at(line, a, n);
    let ghost t = line@.subrange(a as int, b as int);
    assert(line@.subrange(0, n as int) =~= line@);
    assert(t == trim(line@));
    if a == b || line[a] == '#' {
        return None;
    }
    let mut fields: Vec<Vec<char>> = Vec::new();
    match find_char(line, a, b, '\t') {
        None => {
            fields.push(copy_range(line, a, b));
            assert(seqs_of(fields@) =~= seq![t]);
        },
        Some(i) => {
            let ghost rest = t.skip(i - a + 1);
            assert(rest =~= line@.subrange(i + 1, b as int));
            assert(t.take(i - a) =~= line@.subrange(a as int, i as int));
            fields.push(copy_range(line, a, i));
            match find_char(line, i + 1, b, '\t') {
                None => {
                    fields.push(copy_range(line, i + 1, b));
                    assert(seqs_of(fields@) =~= seq![t.take(i - a), rest]);
                },
                Some(j) => {
                    assert(rest.take(j - i - 1) =~= line@.subrange(i + 1, j as int));
                    assert(rest.skip(j - i) =~= line@.subrange(j + 1, b as int));
                    fields.push(copy_range(line, i + 1, j));
                    fields.push(copy_range(line, j + 1, b));
                    assert(seqs_of(fields@) =~= seq![
                        t.take(i - a),
                        rest.take(j - i - 1),
                        rest.skip(j - i),
                    ]);
                },
            }
        },
    }
    Some(fields)
}


/// `s` with each tab replaced by a space (`str::replace('\t', " ")`).
pub open spec fn untab(s: Seq<char>) -> Seq<char> {
    s.map_values(|c: char| if c == '\t' { ' ' } else { c })
}

/// Appends the characters of `v` to `out`, each tab replaced by a space.
pub fn push_untabbed(out: &mut String, v: &Vec<char>)
    ensures
        final(out)@ == old(out)@ + untab(v@),
{
    let ghost start = out@;
    let mut i: usize = 0;
    while i < v.len()
        invariant
            i <= v.len(),
            out@ == start + untab(v@.take(i as int)),
        decreases v.len() - i,
    {
        let c = v[i];
        if c == '\t' {
            push_char(out, ' ');
        } else {
            push_char(out, c);
        }
        i = i + 1;
        assert(untab(v@.take(i as int)) =~= untab(v@.take(i - 1)).push(if c == '\t' {
            ' '
        } else {
            c
        }));
        assert(out@ =~= start + untab(v@.take(i as int)));
    }
    assert(v@.take(v@.len() as int) =~= v@);
}

/// The first occurrence of `c` is at `k` when `s[k]` is `c` and no earlier
/// character is.
pub proof fn lemma_first_index_at(s: Seq<char>, c: char, k: int)
    requires
        0 <= k < s.len(),
        s[k] == c,
        forall|j: int| 0 <= j < k ==> s[j] != c,
    ensures
        first_index_of(s, c) == Some(k),
{
    lemma_first_index_of(s, c);
}

/// A sequence without the separator is a single piece.
pub proof fn lemma_split_on_single(s: Seq<char>, sep: char)
    requires
        forall|i: int| 0 <= i < s.len() ==> s[i] != sep,
    ensures
        split_on(s, sep) == seq![s],
    decreases s.len(),
{
    if s.len() > 0 {
        lemma_split_on_single(s.drop_last(), sep);
        assert(s.drop_last().push(s.last()) =~= s);
        assert(seq![s.drop_last()].update(0, s) =~= seq![s]);
    } else {
        assert(s =~= Seq::<char>::empty());
    }
}

/// Splitting text that has a separator after `a` splits `a` and the rest
/// apart.
pub proof fn lemma_split_on_append(a: Seq<char>, b: Seq<char>, sep: char)
    ensures
        split_on(a.push(sep) + b, sep) == split_on(a, sep) + split_on(b, sep),
    decreases b.len(),
{
    if b.len() == 0 {
        assert(a.push(sep) + b =~= a.push(sep));
        assert(a.push(sep).drop_last() =~= a);
        assert(split_on(a, sep) + split_on(b, sep) =~= split_on(a, sep).push(Seq::empty()));
    } else {
        let ab = a.push(sep) + b;
        assert(ab.drop_last() =~= a.push(sep) + b.drop_last());
        assert(ab.last() == b.last());
        lemma_split_on_append(a, b.drop_last(), sep);
        lemma_split_on_nonempty(b.drop_last(), sep);
        let p = split_on(a, sep);
        let q = split_on(b.drop_last(), sep);
        if b.last() == sep {
            assert((p + q).push(Seq::empty()) =~= p + q.push(Seq::empty()));
        } else {
            assert((p + q).update((p + q).len() - 1, (p + q).last().push(b.last())) =~= p
                + q.update(q.len() - 1, q.last().push(b.last())));
        }
    }
}

/// Digits are not whitespace, tabs or newlines.
pub proof fn lemma_digit_not_special(c: char)
    requires
        is_digit(c),
    ensures
        !is_ws(c),
        c != '\t',
        c != '\n',
{
}


/// `s` without leading and trailing whitespace (`str::trim`).
pub fn trim_string(s: &str) -> (r: String)
    ensures
        r@ == trim(s@),
{
    let v = chars_of(s);
    let a: usize = skip_ws(&v, 0, v.len());
    let b: usize = trim_end_at(&v, a, v.len());
    assert(v@.subrange(0, v@.len() as int) =~= v@);
    string_of_range(&v, a, b)
}

/// The decimal representation of a signed number, with a minus sign when it
/// is negative.
pub open spec fn signed_decimal(n: int) -> Seq<char> {
    if n < 0 {
        seq!['-'] + decimal((-n) as nat)
    } else {
        decimal(n as nat)
    }
}

/// Appends the decimal representation of `n` to `s` (as `i32::to_string` writes it).
pub fn push_signed_decimal(s: &mut String, n: i32)
    ensures
        final(s)@ == old(s)@ + signed_decimal(n as int),
{
    if n < 0 {
        push_char(s, '-');
        let m: u64 = (0i64 - n as i64) as u64;
        push_decimal(s, m);
        assert(s@ =~= old(s)@ + signed_decimal(n as int));
    } else {
        push_decimal(s, n as u64);
    }
}


/// A word of `k` characters at the start of `s` has length `k`.
proof fn lemma_word_len_at(s: Seq<char>, k: int)
    requires
        0 <= k <= s.len(),
        forall|i: int| 0 <= i < k ==> !is_ws(s[i]),
        k == s.len() || is_ws(s[k]),
    ensures
        word_len(s) == k,
    decreases k,
{
    if k > 0 {
        let t = s.drop_first();
        assert forall|i: int| 0 <= i < k - 1 implies !is_ws(t[i]) by {
            assert(t[i] == s[i + 1]);
        }
        if k < s.len() {
            assert(t[k - 1] == s[k]);
        }
        lemma_word_len_at(t, k - 1);
    }
}

/// The program of a command that starts with a word of `k` characters, ended
/// by whitespace or by the end of the command, is that word.
pub proof fn lemma_program_name_word(s: Seq<char>, k: int)
    requires
        0 < k <= s.len(),
        forall|i: int| 0 <= i < k ==> !is_ws(s[i]),
        k == s.len() || is_ws(s[k]),
    ensures
        program_name(s) == s.take(k),
{
    assert(trim_start(s) == s);
    lemma_word_len_at(s, k);
}

} // verus!
