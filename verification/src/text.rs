//! Conversions between strings and character sequences.

use vstd::prelude::*;
use vstd::std_specs::iter::IteratorSpec;
use vstd::string::StringExecFns;

verus! {

/// `String::push` of the standard library: appends one character to the end
/// of the string and leaves the rest unchanged.
pub assume_specification[ String::push ](s: &mut String, ch: char)
    ensures
        final(s)@ == old(s)@.push(ch),
;

/// The string that spells out `cs`.
pub fn string_of(cs: &Vec<char>) -> (s: String)
    ensures
        s@ == cs@,
{
    let mut s = String::new();
    let mut i: usize = 0;
    while i < cs.len()
        invariant
            i <= cs.len(),
            s@ == cs@.subrange(0, i as int),
        decreases cs.len() - i,
    {
        s.push(cs[i]);
        i += 1;
        assert(cs@.subrange(0, i as int) =~= cs@.subrange(0, i - 1).push(cs@[i - 1]));
    }
    assert(cs@.subrange(0, cs.len() as int) =~= cs@);
    s
}

/// The characters of `s`, in order.
pub fn chars_of(s: &str) -> (v: Vec<char>)
    ensures
        v@ == s@,
{
    let mut v: Vec<char> = Vec::new();
    let it0 = s.chars();
    for c in it: it0
        invariant
            v@ == it.history@,
    {
        v.push(c);
    }
    v
}

/// The characters of `cs` from index `from` up to, not including, index `to`.
pub fn slice_of(cs: &Vec<char>, from: usize, to: usize) -> (r: Vec<char>)
    requires
        from <= to <= cs@.len(),
    ensures
        r@ == cs@.subrange(from as int, to as int),
{
    let mut r: Vec<char> = Vec::new();
    let mut i: usize = from;
    while i < to
        invariant
            from <= i <= to <= cs@.len(),
            r@ == cs@.subrange(from as int, i as int),
        decreases to - i,
    {
        r.push(cs[i]);
        i += 1;
        assert(cs@.subrange(from as int, i as int) =~= cs@.subrange(from as int, i - 1).push(
            cs@[i - 1],
        ));
    }
    r
}

/// The character sequences that a list of strings spells.
pub open spec fn texts(v: Seq<String>) -> Seq<Seq<char>> {
    v.map_values(|s: String| s@)
}

/// The character that writes the decimal digit `d`.
pub open spec fn digit_char(d: int) -> char {
    if d == 0 {
        '0'
    } else if d == 1 {
        '1'
    } else if d == 2 {
        '2'
    } else if d == 3 {
        '3'
    } else if d == 4 {
        '4'
    } else if d == 5 {
        '5'
    } else if d == 6 {
        '6'
    } else if d == 7 {
        '7'
    } else if d == 8 {
        '8'
    } else {
        '9'
    }
}

/// The decimal numeral of `n`, without leading zeros.
pub open spec fn decimal_spec(n: nat) -> Seq<char>
    decreases n,
{
    if n < 10 {
        seq![digit_char(n as int)]
    } else {
        decimal_spec(n / 10).push(digit_char((n % 10) as int))
    }
}

/// The character that writes the decimal digit `d`.
fn digit(d: usize) -> (c: char)
    requires
        d < 10,
    ensures
        c == digit_char(d as int),
{
    if d == 0 {
        '0'
    } else if d == 1 {
        '1'
    } else if d == 2 {
        '2'
    } else if d == 3 {
        '3'
    } else if d == 4 {
        '4'
    } else if d == 5 {
        '5'
    } else if d == 6 {
        '6'
    } else if d == 7 {
        '7'
    } else if d == 8 {
        '8'
    } else {
        '9'
    }
}

/// The decimal numeral of `n`.
pub fn decimal(n: usize) -> (r: String)
    ensures
        r@ == decimal_spec(n as nat),
    decreases n,
{
    if n < 10 {
        let mut r = String::new();
        r.push(digit(n));
        assert(r@ =~= seq![digit_char(n as int)]);
        r
    } else {
        let mut r = decimal(n / 10);
        r.push(digit(n % 10));
        r
    }
}

/// Whether two strings spell the same characters.
pub fn str_eq(a: &str, b: &str) -> (r: bool)
    ensures
        r == (a@ == b@),
{
    let x = chars_of(a);
    let y = chars_of(b);
    if x.len() != y.len() {
        return false;
    }
    let mut i: usize = 0;
    while i < x.len()
        invariant
            x@ == a@,
            y@ == b@,
            x@.len() == y@.len(),
            i <= x@.len(),
            forall|j: int| 0 <= j < i ==> x@[j] == y@[j],
        decreases x@.len() - i,
    {
        if x[i] != y[i] {
            return false;
        }
        i += 1;
    }
    assert(x@ =~= y@);
    true
}

/// What `char::is_whitespace` answers for a character.
pub uninterp spec fn is_whitespace_char(c: char) -> bool;

/// `char::is_whitespace` of the standard library: whether the character has
/// the Unicode property `White_Space`. The answer depends on the character
/// alone and is named, not spelled out.
pub assume_specification[ char::is_whitespace ](c: char) -> (b: bool)
    ensures
        b == is_whitespace_char(c),
;

/// The lower-case form that `str::to_lowercase` gives a string.
pub uninterp spec fn lowercase_of(s: Seq<char>) -> Seq<char>;

/// `str::to_lowercase` of the standard library: the string with every
/// character replaced by its Unicode lower-case mapping. The result depends on
/// the characters alone and is named, not spelled out.
pub assume_specification[ str::to_lowercase ](s: &str) -> (r: String)
    ensures
        r@ == lowercase_of(s@),
;

/// The characters of a list of marked characters.
pub open spec fn item_chars(items: Seq<(char, bool)>) -> Seq<char> {
    items.map_values(|item: (char, bool)| item.0)
}

/// The number of marked items from index `i` up to the first unmarked one.
pub open spec fn marked_run(items: Seq<(char, bool)>, i: int) -> nat
    decreases items.len() - i,
{
    if 0 <= i < items.len() && items[i].1 {
        1 + marked_run(items, i + 1)
    } else {
        0
    }
}

/// The number of items that are left when the marked items at the end are cut.
pub open spec fn unmarked_end(items: Seq<(char, bool)>) -> nat
    decreases items.len(),
{
    if items.len() > 0 && items.last().1 {
        unmarked_end(items.drop_last())
    } else {
        items.len()
    }
}

/// A run of marked items ends within the list.
pub proof fn lemma_marked_run_bound(items: Seq<(char, bool)>, i: int)
    requires
        0 <= i <= items.len(),
    ensures
        i + marked_run(items, i) <= items.len(),
    decreases items.len() - i,
{
    if i < items.len() && items[i].1 {
        lemma_marked_run_bound(items, i + 1);
    }
}

/// What is left when the marked items at the end are cut is no longer than the list.
pub proof fn lemma_unmarked_end_bound(items: Seq<(char, bool)>)
    ensures
        unmarked_end(items) <= items.len(),
    decreases items.len(),
{
    if items.len() > 0 && items.last().1 {
        lemma_unmarked_end_bound(items.drop_last());
    }
}

/// The characters that are left when the marked items at the start and at
/// the end are cut.
pub open spec fn trim_marked_spec(items: Seq<(char, bool)>) -> Seq<char> {
    let rest = items.subrange(marked_run(items, 0) as int, items.len() as int);
    item_chars(rest.subrange(0, unmarked_end(rest) as int))
}

/// The characters of `s`, each marked as whitespace or not.
pub open spec fn whitespace_marks_spec(s: Seq<char>) -> Seq<(char, bool)> {
    s.map_values(|c: char| (c, is_whitespace_char(c)))
}

/// `s` without leading and trailing whitespace.
pub open spec fn trim_spec(s: Seq<char>) -> Seq<char> {
    trim_marked_spec(whitespace_marks_spec(s))
}

/// The characters of `cs`, each marked as whitespace or not.
pub fn whitespace_marks(cs: &Vec<char>) -> (r: Vec<(char, bool)>)
    ensures
        r@ == whitespace_marks_spec(cs@),
{
    let mut r: Vec<(char, bool)> = Vec::new();
    let mut i: usize = 0;
    while i < cs.len()
        invariant
            i <= cs@.len(),
            r@.len() == i,
            forall|k: int| 0 <= k < i ==> r@[k] == (cs@[k], is_whitespace_char(cs@[k])),
        decreases cs@.len() - i,
    {
        r.push((cs[i], cs[i].is_whitespace()));
        i += 1;
    }
    assert(r@ =~= whitespace_marks_spec(cs@));
    r
}

/// The characters of `items` from index `from` up to, not including, index `to`.
pub fn item_slice(items: &Vec<(char, bool)>, from: usize, to: usize) -> (r: Vec<char>)
    requires
        from <= to <= items@.len(),
    ensures
        r@ == item_chars(items@.subrange(from as int, to as int)),
{
    let mut r: Vec<char> = Vec::new();
    let mut i: usize = from;
    while i < to
        invariant
            from <= i <= to <= items@.len(),
            r@.len() == i - from,
            forall|k: int| 0 <= k < r@.len() ==> r@[k] == items@[from + k].0,
        decreases to - i,
    {
        r.push(items[i].0);
        i += 1;
    }
    assert(r@ =~= item_chars(items@.subrange(from as int, to as int)));
    r
}

/// The characters that are left when the marked items at the start and at
/// the end of `items` are cut.
pub fn trim_marked(items: &Vec<(char, bool)>) -> (r: Vec<char>)
    ensures
        r@ == trim_marked_spec(items@),
{
    let mut start: usize = 0;
    while start < items.len() && items[start].1
        invariant
            start <= items@.len(),
            marked_run(items@, 0) == start + marked_run(items@, start as int),
        decreases items@.len() - start,
    {
        start += 1;
    }
    let ghost rest = items@.subrange(start as int, items@.len() as int);
    let mut end: usize = items.len();
    assert(items@.subrange(start as int, end as int) =~= rest);
    while end > start && items[end - 1].1
        invariant
            start <= end <= items@.len(),
            rest == items@.subrange(start as int, items@.len() as int),
            unmarked_end(rest) == unmarked_end(items@.subrange(start as int, end as int)),
        decreases end,
    {
        assert(items@.subrange(start as int, end as int).drop_last() =~= items@.subrange(
            start as int,
            end - 1,
        ));
        end -= 1;
    }
    assert(unmarked_end(items@.subrange(start as int, end as int)) == end - start);
    let mut r: Vec<char> = Vec::new();
    let mut i: usize = start;
    while i < end
        invariant
            start <= i <= end <= items@.len(),
            r@.len() == i - start,
            forall|k: int| 0 <= k < r@.len() ==> r@[k] == items@[start + k].0,
        decreases end - i,
    {
        r.push(items[i].0);
        i += 1;
    }
    assert(r@ =~= item_chars(rest.subrange(0, (end - start) as int)));
    r
}

/// `cs` without leading and trailing whitespace.
pub fn trim_chars(cs: &Vec<char>) -> (r: Vec<char>)
    ensures
        r@ == trim_spec(cs@),
{
    trim_marked(&whitespace_marks(cs))
}

/// `s` without leading and trailing whitespace.
pub fn trim(s: &str) -> (r: String)
    ensures
        r@ == trim_spec(s@),
{
    string_of(&trim_chars(&chars_of(s)))
}

/// Whether `s` ends with `suffix`.
pub open spec fn ends_with_spec(s: Seq<char>, suffix: Seq<char>) -> bool {
    s.len() >= suffix.len() && s.subrange(s.len() - suffix.len(), s.len() as int) == suffix
}

/// Whether `s` starts with `prefix`.
pub open spec fn starts_with_spec(s: Seq<char>, prefix: Seq<char>) -> bool {
    s.len() >= prefix.len() && s.subrange(0, prefix.len() as int) == prefix
}

/// Whether `s` holds `part` at index `at`.
pub fn holds_at(s: &Vec<char>, at: usize, part: &Vec<char>) -> (r: bool)
    requires
        at + part@.len() <= s@.len(),
    ensures
        r == (s@.subrange(at as int, at + part@.len()) == part@),
{
    let n: usize = s.len();
    let mut i: usize = 0;
    while i < part.len()
        invariant
            n == s@.len(),
            at + part@.len() <= s@.len(),
            i <= part@.len(),
            forall|j: int| 0 <= j < i ==> s@[at + j] == part@[j],
        decreases part@.len() - i,
    {
        if s[at + i] != part[i] {
            assert(s@.subrange(at as int, at + part@.len())[i as int] != part@[i as int]);
            return false;
        }
        i += 1;
    }
    assert(s@.subrange(at as int, at + part@.len()) =~= part@);
    true
}

/// Whether `s` ends with `suffix`.
pub fn ends_with(s: &str, suffix: &str) -> (r: bool)
    ensures
        r == ends_with_spec(s@, suffix@),
{
    let cs = chars_of(s);
    let suf = chars_of(suffix);
    if cs.len() < suf.len() {
        return false;
    }
    holds_at(&cs, cs.len() - suf.len(), &suf)
}

/// Whether `s` starts with `prefix`.
pub fn starts_with(s: &str, prefix: &str) -> (r: bool)
    ensures
        r == starts_with_spec(s@, prefix@),
{
    let cs = chars_of(s);
    let pre = chars_of(prefix);
    if cs.len() < pre.len() {
        return false;
    }
    holds_at(&cs, 0, &pre)
}

/// The pieces of `s` from position `i` on that `sep` separates, given the
/// pieces completed before `i` and the piece under construction.
pub open spec fn split_from(
    s: Seq<char>,
    i: int,
    sep: char,
    pieces: Seq<Seq<char>>,
    current: Seq<char>,
) -> Seq<Seq<char>>
    decreases s.len() - i,
{
    if i < 0 || i >= s.len() {
        pieces.push(current)
    } else if s[i] == sep {
        split_from(s, i + 1, sep, pieces.push(current), Seq::empty())
    } else {
        split_from(s, i + 1, sep, pieces, current.push(s[i]))
    }
}

/// The pieces of `s` that `sep` separates: one more than there are separators,
/// empty pieces included.
pub open spec fn split_spec(s: Seq<char>, sep: char) -> Seq<Seq<char>> {
    split_from(s, 0, sep, Seq::empty(), Seq::empty())
}

/// The pieces of `s` that `sep` separates.
pub fn split(s: &str, sep: char) -> (r: Vec<String>)
    ensures
        texts(r@) == split_spec(s@, sep),
{
    let cs = chars_of(s);
    let mut pieces: Vec<String> = Vec::new();
    let mut current: Vec<char> = Vec::new();
    let mut i: usize = 0;
    assert(texts(pieces@) =~= Seq::<Seq<char>>::empty());
    while i < cs.len()
        invariant
            cs@ == s@,
            i <= cs@.len(),
            split_from(cs@, i as int, sep, texts(pieces@), current@) == split_spec(s@, sep),
        decreases cs@.len() - i,
    {
        let ghost before = pieces@;
        if cs[i] == sep {
            pieces.push(string_of(&current));
            assert(texts(pieces@) =~= texts(before).push(current@));
            current = Vec::new();
        } else {
            current.push(cs[i]);
        }
        i += 1;
    }
    let ghost before = pieces@;
    pieces.push(string_of(&current));
    assert(texts(pieces@) =~= texts(before).push(current@));
    pieces
}

/// Copies of the strings of `v` from index `from` on.
pub fn clone_strings(v: &Vec<String>, from: usize) -> (r: Vec<String>)
    requires
        from <= v@.len(),
    ensures
        texts(r@) == texts(v@).subrange(from as int, v@.len() as int),
{
    let mut r: Vec<String> = Vec::new();
    let mut i: usize = from;
    while i < v.len()
        invariant
            from <= i <= v@.len(),
            r@.len() == i - from,
            forall|k: int| 0 <= k < r@.len() ==> r@[k]@ == v@[from + k]@,
        decreases v@.len() - i,
    {
        r.push(v[i].clone());
        i += 1;
    }
    assert(texts(r@) =~= texts(v@).subrange(from as int, v@.len() as int));
    r
}

/// The decimal numeral of an integer, with a minus sign where it is negative.
pub open spec fn signed_decimal_spec(n: int) -> Seq<char> {
    if n < 0 {
        "-"@ + decimal_spec((-n) as nat)
    } else {
        decimal_spec(n as nat)
    }
}

/// The decimal numeral of `n`.
pub fn signed_decimal(n: i32) -> (r: String)
    ensures
        r@ == signed_decimal_spec(n as int),
{
    if n < 0 {
        let magnitude: u32 = if n == i32::MIN {
            2147483648u32
        } else {
            (-n) as u32
        };
        let digits = decimal(magnitude as usize);
        String::from_str("-").concat(digits.as_str())
    } else {
        decimal(n as usize)
    }
}

/// `line` without the carriage return that ends it, if one does.
pub open spec fn without_carriage_return(line: Seq<char>) -> Seq<char> {
    if line.len() > 0 && line.last() == '\r' {
        line.drop_last()
    } else {
        line
    }
}

/// The lines of `s` from position `i` on, given the lines completed before
/// `i` and the line under construction.
pub open spec fn lines_from(
    s: Seq<char>,
    i: int,
    lines: Seq<Seq<char>>,
    current: Seq<char>,
) -> Seq<Seq<char>>
    decreases s.len() - i,
{
    if i < 0 || i >= s.len() {
        if current.len() > 0 {
            lines.push(current)
        } else {
            lines
        }
    } else if s[i] == '\n' {
        lines_from(s, i + 1, lines.push(without_carriage_return(current)), Seq::empty())
    } else {
        lines_from(s, i + 1, lines, current.push(s[i]))
    }
}

/// The lines of `s`: a line ends at a line feed, which does not belong to
/// it, nor does a carriage return just before that line feed; what follows
/// the last line feed is a line unless it is empty.
pub open spec fn lines_spec(s: Seq<char>) -> Seq<Seq<char>> {
    lines_from(s, 0, Seq::empty(), Seq::empty())
}

/// The lines of `s`.
pub fn lines(s: &str) -> (r: Vec<String>)
    ensures
        texts(r@) == lines_spec(s@),
{
    let cs = chars_of(s);
    let mut found: Vec<String> = Vec::new();
    let mut current: Vec<char> = Vec::new();
    let mut i: usize = 0;
    assert(texts(found@) =~= Seq::<Seq<char>>::empty());
    while i < cs.len()
        invariant
            cs@ == s@,
            i <= cs@.len(),
            lines_from(cs@, i as int, texts(found@), current@) == lines_spec(s@),
        decreases cs@.len() - i,
    {
        let ghost before = found@;
        if cs[i] == '\n' {
            let n: usize = current.len();
            let line = if n > 0 && current[n - 1] == '\r' {
                let cut = slice_of(&current, 0, n - 1);
                assert(cut@ =~= current@.drop_last());
                string_of(&cut)
            } else {
                string_of(&current)
            };
            found.push(line);
            assert(texts(found@) =~= texts(before).push(without_carriage_return(current@)));
            current = Vec::new();
        } else {
            current.push(cs[i]);
        }
        i += 1;
    }
    if current.len() > 0 {
        let ghost before = found@;
        found.push(string_of(&current));
        assert(texts(found@) =~= texts(before).push(current@));
    }
    found
}

/// The first `n` pieces, each but the first preceded by `sep`, run together.
pub open spec fn join_spec(pieces: Seq<Seq<char>>, sep: Seq<char>, n: nat) -> Seq<char>
    decreases n,
{
    if n == 0 {
        Seq::empty()
    } else if n == 1 {
        pieces[0]
    } else {
        join_spec(pieces, sep, (n - 1) as nat) + sep + pieces[n - 1]
    }
}

/// The pieces run together with `sep` between each two.
pub fn join(pieces: &Vec<String>, sep: &str) -> (r: String)
    ensures
        r@ == join_spec(texts(pieces@), sep@, pieces@.len()),
{
    let ghost all = texts(pieces@);
    let mut out = String::new();
    let mut i: usize = 0;
    while i < pieces.len()
        invariant
            all == texts(pieces@),
            i <= pieces@.len(),
            out@ == join_spec(all, sep@, i as nat),
        decreases pieces@.len() - i,
    {
        assert(all[i as int] == pieces@[i as int]@);
        if i > 0 {
            out.append(sep);
        }
        out.append(pieces[i].as_str());
        proof {
            if i == 0 {
                assert(Seq::<char>::empty() + all[0] =~= all[0]);
            }
        }
        i += 1;
    }
    out
}

/// The first `n` characters of `s`, or all of `s` where it has fewer.
pub open spec fn take_spec(s: Seq<char>, n: nat) -> Seq<char> {
    if s.len() <= n {
        s
    } else {
        s.subrange(0, n as int)
    }
}

/// The first `n` characters of `s`, or all of `s` where it has fewer.
pub fn take_chars(s: &str, n: usize) -> (r: String)
    ensures
        r@ == take_spec(s@, n as nat),
{
    let cs = chars_of(s);
    if cs.len() <= n {
        String::from_str(s)
    } else {
        string_of(&slice_of(&cs, 0, n))
    }
}

/// Whether `part` occurs somewhere in `s`.
pub open spec fn contains_spec(s: Seq<char>, part: Seq<char>) -> bool {
    exists|i: int| 0 <= i && i + part.len() <= s.len() && #[trigger] s.subrange(
        i,
        i + part.len(),
    ) == part
}

/// Whether `part` occurs somewhere in `s`.
pub fn contains(s: &str, part: &str) -> (r: bool)
    ensures
        r == contains_spec(s@, part@),
{
    let cs = chars_of(s);
    let ps = chars_of(part);
    if ps.len() > cs.len() {
        return false;
    }
    let last: usize = cs.len() - ps.len();
    let mut i: usize = 0;
    while i < last
        invariant
            cs@ == s@,
            ps@ == part@,
            last == cs@.len() - ps@.len(),
            i <= last,
            forall|k: int| 0 <= k < i ==> #[trigger] cs@.subrange(k, k + ps@.len()) != ps@,
        decreases last - i,
    {
        if holds_at(&cs, i, &ps) {
            return true;
        }
        i += 1;
    }
    holds_at(&cs, last, &ps)
}

} // verus!
