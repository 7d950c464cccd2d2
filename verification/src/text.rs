//! Text primitives: what the rest of the library says about strings, and
//! the small functions that compute it.
//!
//! A string is modelled by the sequence of its characters, so every
//! contract here and elsewhere speaks of `Seq<char>`.

use vstd::prelude::*;

verus! {

/// `String::push` appends one character.
pub assume_specification[ String::push ](s: &mut String, c: char)
    ensures
        final(s)@ == old(s)@.push(c),
;

/// The decimal digit `d`, for `d < 10`.
pub open spec fn digit(d: nat) -> char {
    (48 + d) as char
}

/// `n` written in decimal without leading zeros.
pub open spec fn decimal(n: nat) -> Seq<char>
    decreases n,
{
    if n < 10 {
        seq![digit(n)]
    } else {
        decimal(n / 10).push(digit(n % 10))
    }
}

/// `n` in decimal, with a leading zero when it has a single digit.
pub open spec fn two_digits(n: nat) -> Seq<char> {
    if n < 10 {
        seq!['0', digit(n)]
    } else {
        decimal(n)
    }
}

/// `n` copies of the space character.
pub open spec fn spaces(n: nat) -> Seq<char> {
    Seq::new(n, |i: int| ' ')
}

/// `s` right-aligned in a column of `width` characters.
pub open spec fn aligned_right(s: Seq<char>, width: nat) -> Seq<char> {
    if s.len() >= width {
        s
    } else {
        spaces((width - s.len()) as nat) + s
    }
}

/// `s` left-aligned in a column of `width` characters.
pub open spec fn aligned_left(s: Seq<char>, width: nat) -> Seq<char> {
    if s.len() >= width {
        s
    } else {
        s + spaces((width - s.len()) as nat)
    }
}

/// `count` copies of `glyph`.
pub open spec fn repeated(glyph: char, count: nat) -> Seq<char> {
    Seq::new(count, |i: int| glyph)
}

/// `parts` in order with `separator` between neighbours.
pub open spec fn joined(parts: Seq<Seq<char>>, separator: Seq<char>) -> Seq<char>
    decreases parts.len(),
{
    if parts.len() == 0 {
        Seq::empty()
    } else if parts.len() == 1 {
        parts[0]
    } else {
        joined(parts.drop_last(), separator) + separator + parts.last()
    }
}

/// The views of a list of strings.
pub open spec fn texts(list: Seq<String>) -> Seq<Seq<char>> {
    list.map_values(|s: String| s@)
}

/// The view of an optional string.
pub open spec fn opt_text(s: Option<String>) -> Option<Seq<char>> {
    match s {
        Some(s) => Some(s@),
        None => None,
    }
}

/// The part of `s` before the first `a` or `b`; all of `s` when neither
/// occurs.
pub open spec fn up_to_either(s: Seq<char>, a: char, b: char) -> Seq<char>
    decreases s.len(),
{
    if s.len() == 0 || s[0] == a || s[0] == b {
        Seq::empty()
    } else {
        seq![s[0]] + up_to_either(s.drop_first(), a, b)
    }
}

/// The part of `s` after the last `c`; all of `s` when it does not occur.
pub open spec fn after_last(s: Seq<char>, c: char) -> Seq<char>
    decreases s.len(),
{
    if s.len() == 0 || s.last() == c {
        Seq::empty()
    } else {
        after_last(s.drop_last(), c).push(s.last())
    }
}

/// `a` sorts strictly before `b`: character by character, by code point, a
/// proper prefix first.
pub open spec fn text_before(a: Seq<char>, b: Seq<char>) -> bool
    decreases a.len(),
{
    if b.len() == 0 {
        false
    } else if a.len() == 0 {
        true
    } else if a[0] != b[0] {
        (a[0] as int) < (b[0] as int)
    } else {
        text_before(a.drop_first(), b.drop_first())
    }
}

/// The Unicode `White_Space` property.
pub open spec fn is_white(c: char) -> bool {
    let u = c as int;
    ||| 0x9 <= u <= 0xd
    ||| u == 0x20
    ||| u == 0x85
    ||| u == 0xa0
    ||| u == 0x1680
    ||| 0x2000 <= u <= 0x200a
    ||| u == 0x2028
    ||| u == 0x2029
    ||| u == 0x202f
    ||| u == 0x205f
    ||| u == 0x3000
}

/// `text_before` is irreflexive.
pub proof fn lemma_text_before_irreflexive(a: Seq<char>)
    ensures
        !text_before(a, a),
    decreases a.len(),
{
    if a.len() > 0 {
        lemma_text_before_irreflexive(a.drop_first());
    }
}

/// `text_before` is transitive.
pub proof fn lemma_text_before_transitive(a: Seq<char>, b: Seq<char>, c: Seq<char>)
    requires
        text_before(a, b),
        text_before(b, c),
    ensures
        text_before(a, c),
    decreases a.len(),
{
    if a.len() > 0 && a[0] == b[0] && b[0] == c[0] {
        lemma_text_before_transitive(a.drop_first(), b.drop_first(), c.drop_first());
    }
}

/// Of two different texts one sorts before the other.
pub proof fn lemma_text_before_total(a: Seq<char>, b: Seq<char>)
    ensures
        a == b || text_before(a, b) || text_before(b, a),
    decreases a.len(),
{
    if a.len() > 0 && b.len() > 0 {
        if a[0] == b[0] {
            lemma_text_before_total(a.drop_first(), b.drop_first());
            if a.drop_first() == b.drop_first() {
                assert(a =~= seq![a[0]] + a.drop_first());
                assert(b =~= seq![b[0]] + b.drop_first());
            }
        }
    } else {
        assert(a.len() == 0 && b.len() == 0 ==> a =~= b);
    }
}

/// Distinct numbers have distinct decimal forms.
pub proof fn lemma_decimal_injective(m: nat, n: nat)
    ensures
        decimal(m) == decimal(n) ==> m == n,
    decreases m,
{
    if decimal(m) == decimal(n) {
        if m < 10 && n < 10 {
            assert(decimal(m)[0] == decimal(n)[0]);
        } else if m < 10 {
            lemma_decimal_nonempty(n / 10);
            assert(decimal(n).len() >= 2);
            assert(decimal(m).len() == 1);
        } else if n < 10 {
            lemma_decimal_nonempty(m / 10);
            assert(decimal(m).len() >= 2);
            assert(decimal(n).len() == 1);
        } else {
            assert(decimal(m).last() == decimal(n).last());
            assert(decimal(m).drop_last() =~= decimal(m / 10));
            assert(decimal(n).drop_last() =~= decimal(n / 10));
            lemma_decimal_injective(m / 10, n / 10);
        }
    }
}

/// A decimal form has at least one digit.
pub proof fn lemma_decimal_nonempty(n: nat)
    ensures
        decimal(n).len() >= 1,
    decreases n,
{
    if n >= 10 {
        lemma_decimal_nonempty(n / 10);
    }
}

/// The characters of `s`, in order.
pub fn chars_of(s: &str) -> (chars: Vec<char>)
    ensures
        chars@ == s@,
{
    let mut chars: Vec<char> = Vec::new();
    for c in it: s.chars()
        invariant
            it.seq() == s@,
            chars@ == s@.take(it.index() as int),
    {
        chars.push(c);
        assert(s@.take(it.index() + 1) =~= s@.take(it.index() as int).push(c));
    }
    assert(s@.take(s@.len() as int) =~= s@);
    chars
}

/// The characters `chars[from..to]` as a string.
pub fn from_chars(chars: &Vec<char>, from: usize, to: usize) -> (s: String)
    requires
        from <= to <= chars@.len(),
    ensures
        s@ == chars@.subrange(from as int, to as int),
{
    let mut s = String::new();
    let mut i: usize = from;
    while i < to
        invariant
            from <= i <= to <= chars@.len(),
            s@ == chars@.subrange(from as int, i as int),
        decreases to - i,
    {
        s.push(chars[i]);
        assert(chars@.subrange(from as int, i + 1) =~= chars@.subrange(from as int, i as int).push(
            chars@[i as int],
        ));
        i += 1;
    }
    s
}

/// A copy of an optional string.
pub fn copy_opt(s: &Option<String>) -> (copy: Option<String>)
    ensures
        copy == *s,
{
    match s {
        Some(s) => Some(s.clone()),
        None => None,
    }
}

/// Whether two strings hold the same characters.
pub fn same_text(a: &str, b: &str) -> (same: bool)
    ensures
        same == (a@ == b@),
{
    a.to_owned() == b.to_owned()
}

/// Whether `s` begins with `prefix`.
pub fn begins_with(s: &str, prefix: &str) -> (yes: bool)
    ensures
        yes == prefix@.is_prefix_of(s@),
{
    let whole = chars_of(s);
    let head = chars_of(prefix);
    if head.len() > whole.len() {
        return false;
    }
    let mut i: usize = 0;
    while i < head.len()
        invariant
            i <= head@.len() <= whole@.len(),
            head@ == prefix@,
            whole@ == s@,
            head@.take(i as int) == whole@.take(i as int),
        decreases head@.len() - i,
    {
        if head[i] != whole[i] {
            assert(s@.subrange(0, prefix@.len() as int)[i as int] == whole@[i as int]);
            return false;
        }
        assert(head@.take(i + 1) =~= head@.take(i as int).push(head@[i as int]));
        assert(whole@.take(i + 1) =~= whole@.take(i as int).push(whole@[i as int]));
        i += 1;
    }
    assert(head@.take(head@.len() as int) =~= head@);
    true
}

/// What follows `prefix` in `s`, when `s` begins with it.
pub fn without_prefix(s: &str, prefix: &str) -> (rest: Option<String>)
    ensures
        rest is Some <==> prefix@.is_prefix_of(s@),
        rest matches Some(rest) ==> rest@ == s@.skip(prefix@.len() as int),
{
    if begins_with(s, prefix) {
        let chars = chars_of(s);
        let from: usize = chars_of(prefix).len();
        let to: usize = chars.len();
        let rest = from_chars(&chars, from, to);
        assert(rest@ =~= s@.skip(prefix@.len() as int));
        Some(rest)
    } else {
        None
    }
}

/// What precedes `suffix` in `s`, when `s` ends with it.
pub fn without_suffix(s: &str, suffix: &str) -> (rest: Option<String>)
    ensures
        rest is Some <==> suffix@.is_suffix_of(s@),
        rest matches Some(rest) ==> rest@ == s@.take(s@.len() - suffix@.len()),
{
    let chars = chars_of(s);
    let tail = chars_of(suffix);
    if tail.len() > chars.len() {
        return None;
    }
    let cut: usize = chars.len() - tail.len();
    let total: usize = chars.len();
    let end = from_chars(&chars, cut, total);
    if same_text(end.as_str(), suffix) {
        let rest = from_chars(&chars, 0, cut);
        assert(rest@ =~= s@.take(s@.len() - suffix@.len()));
        Some(rest)
    } else {
        None
    }
}

/// `n` in decimal.
pub fn decimal_text(n: u64) -> (s: String)
    ensures
        s@ == decimal(n as nat),
    decreases n,
{
    let d: u8 = (n % 10) as u8;
    let c: char = (48u8 + d) as char;
    if n < 10 {
        let mut s = String::new();
        s.push(c);
        assert(s@ =~= decimal(n as nat));
        s
    } else {
        let mut s = decimal_text(n / 10);
        s.push(c);
        s
    }
}

/// `n` in decimal, zero-padded to two digits.
pub fn two_digit_text(n: u64) -> (s: String)
    ensures
        s@ == two_digits(n as nat),
{
    if n < 10 {
        let mut s = String::new();
        s.push('0');
        let d: u8 = n as u8;
        s.push((48u8 + d) as char);
        assert(s@ =~= two_digits(n as nat));
        s
    } else {
        decimal_text(n)
    }
}

/// `count` copies of `glyph`.
pub fn repeat_glyph(glyph: char, count: usize) -> (s: String)
    ensures
        s@ == repeated(glyph, count as nat),
{
    let mut s = String::new();
    let mut i: usize = 0;
    while i < count
        invariant
            i <= count,
            s@ == repeated(glyph, i as nat),
        decreases count - i,
    {
        s.push(glyph);
        i += 1;
        assert(s@ =~= repeated(glyph, i as nat));
    }
    s
}

/// `s` right-aligned in `width` columns.
pub fn align_right(s: &str, width: usize) -> (r: String)
    ensures
        r@ == aligned_right(s@, width as nat),
{
    let len: usize = chars_of(s).len();
    if len >= width {
        s.to_owned()
    } else {
        let mut r = repeat_glyph(' ', width - len);
        assert(r@ =~= spaces((width - len) as nat));
        r.append(s);
        r
    }
}

/// `s` left-aligned in `width` columns.
pub fn align_left(s: &str, width: usize) -> (r: String)
    ensures
        r@ == aligned_left(s@, width as nat),
{
    let len: usize = chars_of(s).len();
    if len >= width {
        s.to_owned()
    } else {
        let mut r = s.to_owned();
        let pad = repeat_glyph(' ', width - len);
        assert(pad@ =~= spaces((width - len) as nat));
        r.append(pad.as_str());
        r
    }
}

/// `parts` in order with `separator` between neighbours.
pub fn join(parts: &Vec<String>, separator: &str) -> (s: String)
    ensures
        s@ == joined(texts(parts@), separator@),
{
    let mut s = String::new();
    let mut i: usize = 0;
    let ghost all = texts(parts@);
    while i < parts.len()
        invariant
            i <= parts@.len(),
            all == texts(parts@),
            s@ == joined(all.take(i as int), separator@),
        decreases parts@.len() - i,
    {
        assert(all.take(i + 1).drop_last() =~= all.take(i as int));
        assert(all.take(i + 1).last() == parts@[i as int]@);
        if i > 0 {
            s.append(separator);
            s.append(parts[i].as_str());
        } else {
            s = parts[i].clone();
            assert(all.take(1)[0] == parts@[0]@);
        }
        i += 1;
    }
    assert(all.take(parts@.len() as int) =~= all);
    s
}

/// The part of `s` before the first `a` or `b`.
pub fn cut_at_either(s: &str, a: char, b: char) -> (head: String)
    ensures
        head@ == up_to_either(s@, a, b),
{
    let chars = chars_of(s);
    let mut i: usize = 0;
    assert(chars@.skip(0) =~= chars@);
    assert(chars@.take(0) + up_to_either(chars@.skip(0), a, b) =~= up_to_either(s@, a, b));
    while i < chars.len()
        invariant
            i <= chars@.len(),
            chars@ == s@,
            up_to_either(s@, a, b) == chars@.take(i as int) + up_to_either(
                chars@.skip(i as int),
                a,
                b,
            ),
        decreases chars@.len() - i,
    {
        if chars[i] == a || chars[i] == b {
            let head = from_chars(&chars, 0, i);
            assert(chars@.skip(i as int)[0] == chars@[i as int]);
            assert(head@ =~= up_to_either(s@, a, b));
            return head;
        }
        proof {
            let rest = chars@.skip(i as int);
            assert(rest[0] == chars@[i as int]);
            assert(rest.drop_first() =~= chars@.skip(i + 1));
            assert(chars@.take(i + 1) =~= chars@.take(i as int) + seq![rest[0]]);
            assert(chars@.take(i as int) + (seq![rest[0]] + up_to_either(rest.drop_first(), a, b))
                =~= chars@.take(i + 1) + up_to_either(chars@.skip(i + 1), a, b));
        }
        i += 1;
    }
    let total: usize = chars.len();
    let head = from_chars(&chars, 0, total);
    assert(head@ =~= up_to_either(s@, a, b));
    head
}

/// The part of `s` after the last `c`.
pub fn tail_after(s: &str, c: char) -> (tail: String)
    ensures
        tail@ == after_last(s@, c),
{
    let chars = chars_of(s);
    let total: usize = chars.len();
    let mut i: usize = total;
    assert(chars@.take(total as int) =~= chars@);
    assert(after_last(chars@.take(total as int), c) + chars@.skip(total as int) =~= after_last(
        s@,
        c,
    ));
    while i > 0
        invariant
            i <= total == chars@.len(),
            chars@ == s@,
            after_last(s@, c) == after_last(chars@.take(i as int), c) + chars@.skip(i as int),
        decreases i,
    {
        if chars[i - 1] == c {
            let tail = from_chars(&chars, i, total);
            assert(chars@.take(i as int).last() == chars@[i - 1]);
            assert(tail@ =~= after_last(s@, c));
            return tail;
        }
        proof {
            let head = chars@.take(i as int);
            assert(head.last() == chars@[i - 1]);
            assert(head.drop_last() =~= chars@.take(i - 1));
            assert(chars@.skip(i - 1) =~= seq![head.last()] + chars@.skip(i as int));
            assert(after_last(head.drop_last(), c).push(head.last()) + chars@.skip(i as int)
                =~= after_last(chars@.take(i - 1), c) + chars@.skip(i - 1));
        }
        i -= 1;
    }
    let tail = from_chars(&chars, 0, total);
    assert(tail@ =~= after_last(s@, c));
    tail
}

/// Whether `a` sorts strictly before `b`.
pub fn sorts_before(a: &str, b: &str) -> (before: bool)
    ensures
        before == text_before(a@, b@),
{
    let xs = chars_of(a);
    let ys = chars_of(b);
    let mut i: usize = 0;
    assert(xs@.skip(0) =~= xs@);
    assert(ys@.skip(0) =~= ys@);
    while i < xs.len() && i < ys.len()
        invariant
            i <= xs@.len(),
            i <= ys@.len(),
            xs@ == a@,
            ys@ == b@,
            text_before(a@, b@) == text_before(xs@.skip(i as int), ys@.skip(i as int)),
        decreases xs@.len() - i,
    {
        let x: char = xs[i];
        let y: char = ys[i];
        assert(xs@.skip(i as int)[0] == x && ys@.skip(i as int)[0] == y);
        if x != y {
            return x < y;
        }
        proof {
            assert(xs@.skip(i as int).drop_first() =~= xs@.skip(i + 1));
            assert(ys@.skip(i as int).drop_first() =~= ys@.skip(i + 1));
        }
        i += 1;
    }
    i < ys.len()
}

/// Whether `s` is nothing but white space.
pub fn is_blank(s: &str) -> (blank: bool)
    ensures
        blank == (forall|i: int| 0 <= i < s@.len() ==> is_white(#[trigger] s@[i])),
{
    let chars = chars_of(s);
    let mut i: usize = 0;
    while i < chars.len()
        invariant
            i <= chars@.len(),
            chars@ == s@,
            forall|j: int| 0 <= j < i ==> is_white(#[trigger] s@[j]),
        decreases chars@.len() - i,
    {
        let c: char = chars[i];
        let white = ('\u{9}' <= c && c <= '\u{d}') || c == ' ' || c == '\u{85}' || c == '\u{a0}' || c
            == '\u{1680}' || ('\u{2000}' <= c && c <= '\u{200a}') || c == '\u{2028}' || c
            == '\u{2029}' || c == '\u{202f}' || c == '\u{205f}' || c == '\u{3000}';
        if !white {
            assert(!is_white(s@[i as int]));
            return false;
        }
        i += 1;
    }
    true
}

/// Cutting gives what stands before the first of two characters, or the
/// whole text where neither occurs.
pub proof fn law_cutting(head: Seq<char>, a: char, b: char, rest: Seq<char>)
    requires
        forall|i: int| 0 <= i < head.len() ==> #[trigger] head[i] != a && head[i] != b,
        rest.len() > 0 ==> rest[0] == a || rest[0] == b,
    ensures
        up_to_either(head + rest, a, b) == head,
    decreases head.len(),
{
    let all = head + rest;
    if head.len() > 0 {
        assert(all.drop_first() =~= head.drop_first() + rest);
        assert forall|i: int| 0 <= i < head.drop_first().len() implies #[trigger] head.drop_first()[i]
            != a && head.drop_first()[i] != b by {
            assert(head.drop_first()[i] == head[i + 1]);
        }
        law_cutting(head.drop_first(), a, b, rest);
        assert(all[0] == head[0]);
        assert(seq![head[0]] + head.drop_first() =~= head);
    } else {
        assert(all =~= rest);
    }
}

/// A tail is what stands behind the last occurrence of a character, or the
/// whole text where it does not occur.
pub proof fn law_tails(head: Seq<char>, c: char, tail: Seq<char>)
    requires
        forall|i: int| 0 <= i < tail.len() ==> #[trigger] tail[i] != c,
    ensures
        after_last(head + seq![c] + tail, c) == tail,
        after_last(tail, c) == tail,
    decreases tail.len(),
{
    let all = head + seq![c] + tail;
    if tail.len() > 0 {
        assert forall|i: int| 0 <= i < tail.drop_last().len() implies #[trigger] tail.drop_last()[i]
            != c by {
            assert(tail.drop_last()[i] == tail[i]);
        }
        law_tails(head, c, tail.drop_last());
        assert(all.drop_last() =~= head + seq![c] + tail.drop_last());
        assert(all.last() == tail.last());
        assert(tail[tail.len() - 1] != c);
        assert(tail.drop_last().push(tail.last()) =~= tail);
    } else {
        assert(all.last() == c);
    }
}

/// The value of a text of decimal digits.
pub open spec fn decimal_value(text: Seq<char>) -> nat
    decreases text.len(),
{
    if text.len() == 0 {
        0
    } else {
        decimal_value(text.drop_last()) * 10 + (text.last() as int - '0' as int) as nat
    }
}

/// A number in decimal reads back as that number: it consists of digits,
/// without a leading zero but for zero itself. In two digits it reads back
/// as well, and takes at least two.
pub proof fn law_numbers_read_back(n: nat)
    ensures
        decimal_value(decimal(n)) == n,
        decimal(n).len() >= 1,
        forall|i: int| 0 <= i < decimal(n).len() ==> '0' <= #[trigger] decimal(n)[i] <= '9',
        n > 0 ==> decimal(n)[0] != '0',
        decimal_value(two_digits(n)) == n,
        two_digits(n).len() >= 2,
        two_digits(n).len() == 2 || two_digits(n) == decimal(n),
    decreases n,
{
    if n < 10 {
        assert(seq![digit(n)].drop_last() =~= Seq::empty());
        assert(decimal_value(seq![digit(n)].drop_last()) == 0);
        let two = seq!['0', digit(n)];
        assert(two.drop_last() =~= seq!['0']);
        assert(seq!['0'].drop_last() =~= Seq::empty());
        assert(decimal_value(seq!['0'].drop_last()) == 0);
        assert(decimal_value(seq!['0']) == 0);
        assert(decimal_value(two) == n);
    } else {
        law_numbers_read_back(n / 10);
        let head = decimal(n / 10);
        assert(decimal(n) == head.push(digit(n % 10)));
        assert(head.push(digit(n % 10)).drop_last() =~= head);
        assert(decimal(n)[0] == head[0]);
        assert forall|i: int| 0 <= i < decimal(n).len() implies '0' <= #[trigger] decimal(n)[i]
            <= '9' by {
            if i < head.len() {
                assert(decimal(n)[i] == head[i]);
            }
        }
    }
}

/// Aligning pads with spaces on one side to the width, and leaves a text
/// that is as wide already.
pub proof fn law_alignment(s: Seq<char>, width: nat)
    ensures
        s.len() >= width ==> aligned_right(s, width) == s && aligned_left(s, width) == s,
        s.len() < width ==> {
            &&& aligned_right(s, width).len() == width
            &&& aligned_left(s, width).len() == width
            &&& s.is_suffix_of(aligned_right(s, width))
            &&& s.is_prefix_of(aligned_left(s, width))
            &&& forall|i: int|
                0 <= i < width - s.len() ==> #[trigger] aligned_right(s, width)[i] == ' '
            &&& forall|i: int|
                s.len() <= i < width ==> #[trigger] aligned_left(s, width)[i] == ' '
        },
{
    if s.len() < width {
        let right = aligned_right(s, width);
        assert(right.subrange(right.len() - s.len(), right.len() as int) =~= s);
        assert(aligned_left(s, width).subrange(0, s.len() as int) =~= s);
    }
}

/// Joining puts the separator between neighbours and nowhere else.
pub proof fn law_joining(parts: Seq<Seq<char>>, last: Seq<char>, separator: Seq<char>)
    ensures
        joined(Seq::empty(), separator) == Seq::<char>::empty(),
        joined(seq![last], separator) == last,
        parts.len() > 0 ==> joined(parts.push(last), separator) == joined(parts, separator)
            + separator + last,
{
    assert(parts.push(last).drop_last() =~= parts);
}

/// Texts are ordered as in a dictionary: a text comes before every
/// continuation of it, and of two that differ the one with the smaller
/// character at the first difference comes first.
pub proof fn law_dictionary_order(
    common: Seq<char>,
    c: char,
    a: Seq<char>,
    d: char,
    b: Seq<char>,
)
    ensures
        text_before(common, common + seq![c] + a),
        !text_before(common + seq![c] + a, common),
        (c as int) < (d as int) ==> text_before(common + seq![c] + a, common + seq![d] + b)
            && !text_before(common + seq![d] + b, common + seq![c] + a),
    decreases common.len(),
{
    let x = common + seq![c] + a;
    let y = common + seq![d] + b;
    if common.len() > 0 {
        let rest = common.drop_first();
        law_dictionary_order(rest, c, a, d, b);
        assert(x.drop_first() =~= rest + seq![c] + a);
        assert(y.drop_first() =~= rest + seq![d] + b);
        assert(x[0] == common[0] && y[0] == common[0]);
    } else {
        assert(x[0] == c && y[0] == d);
    }
}

/// Blanks, tabs and line ends are white, as are the spaces of other scripts;
/// no printable ASCII character is.
pub proof fn law_white_space(c: char)
    ensures
        c == ' ' || c == '\t' || c == '\n' || c == '\r' ==> is_white(c),
        0x20 < (c as int) < 0x7f ==> !is_white(c),
        (c as int) < 0x80 ==> (is_white(c) <==> c as int == 0x20 || 0x8 < (c as int) < 0xe),
        0x80 <= (c as int) ==> (is_white(c) <==> c as int == 0x85 || c as int == 0xa0 || c as int
            == 0x1680 || 0x1fff < (c as int) < 0x200b || c as int == 0x2028 || c as int == 0x2029
            || c as int == 0x202f || c as int == 0x205f || c as int == 0x3000),
{
}

} // verus!
