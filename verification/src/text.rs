use vstd::prelude::*;

verus! {

/// The number of terminal columns that `text` occupies, as
/// `unicode_width::UnicodeWidthStr::width` computes it.
pub uninterp spec fn display_width(text: Seq<char>) -> usize;

/// Calls `unicode_width::UnicodeWidthStr::width` on `text`. The width is a
/// function of the characters alone, and the empty string has width 0: the
/// crate folds the characters' widths from 0.
#[verifier::external_body]
fn width_of(text: &str) -> (width: usize)
    ensures
        width == display_width(text@),
        text@.len() == 0 ==> width == 0,
{
    unicode_width::UnicodeWidthStr::width(text)
}

/// `String::push` appends one character.
pub assume_specification[ String::push ](text: &mut String, ch: char)
    ensures
        final(text)@ == old(text)@.push(ch),
;

/// The character that the ellipsis marker is made of.
pub open spec fn ellipsis() -> char {
    '\u{2026}'
}

/// The display width of each proper prefix of `text`, by the number of its characters.
pub open spec fn prefix_widths(text: Seq<char>) -> Seq<usize> {
    Seq::new(text.len(), |n: int| display_width(text.take(n)))
}

/// The index of the first width at or after `from` that is not below `max`,
/// or the number of widths where there is none.
pub open spec fn fitting_run(widths: Seq<usize>, max: usize, from: nat) -> nat
    decreases widths.len() - from,
{
    if from < widths.len() && widths[from as int] < max {
        fitting_run(widths, max, from + 1)
    } else {
        from
    }
}

/// The last index of the leading run of widths below `max`, or 0 where the
/// first width is not below it.
pub open spec fn cut_index(widths: Seq<usize>, max: usize) -> nat {
    let run = fitting_run(widths, max, 0);
    if run == 0 {
        0
    } else {
        (run - 1) as nat
    }
}

/// What `fitting_run` finds: every width before it is below `max`, and the
/// width at it, where there is one, is not.
pub proof fn lemma_fitting_run(widths: Seq<usize>, max: usize, from: nat)
    requires
        from <= widths.len(),
    ensures
        from <= fitting_run(widths, max, from) <= widths.len(),
        forall|i: int| from <= i < fitting_run(widths, max, from) ==> widths[i] < max,
        fitting_run(widths, max, from) < widths.len() ==> widths[fitting_run(
            widths,
            max,
            from,
        ) as int] >= max,
    decreases widths.len() - from,
{
    if from < widths.len() && widths[from as int] < max {
        lemma_fitting_run(widths, max, from + 1);
    }
}

/// The run is decided by the widths up to its end: a sequence that agrees
/// with `widths` up to and including the first width that is not below `max`
/// has the same run.
proof fn lemma_fitting_run_of_prefix(
    widths: Seq<usize>,
    part: Seq<usize>,
    max: usize,
    from: nat,
)
    requires
        part.len() <= widths.len(),
        forall|i: int| 0 <= i < part.len() ==> part[i] == widths[i],
        part.len() == widths.len() || (part.len() > 0 && part.last() >= max),
        from <= part.len(),
        part.len() < widths.len() ==> from < part.len(),
    ensures
        fitting_run(part, max, from) == fitting_run(widths, max, from),
    decreases part.len() - from,
{
    if from < part.len() && part[from as int] < max {
        lemma_fitting_run_of_prefix(widths, part, max, from + 1);
    }
}

/// The last index of the leading run of `widths` below `max_len`.
pub fn last_fitting(widths: &Vec<usize>, max_len: usize) -> (index: usize)
    ensures
        index == cut_index(widths@, max_len),
{
    let mut run: usize = 0;
    while run < widths.len() && widths[run] < max_len
        invariant
            run <= widths.len(),
            fitting_run(widths@, max_len, 0) == fitting_run(widths@, max_len, run as nat),
        decreases widths.len() - run,
    {
        run += 1;
    }
    if run == 0 {
        0
    } else {
        run - 1
    }
}

/// The widths of the prefixes of `name`, shortest first, up to and
/// including the first that is not below `max_len`.
fn leading_widths(name: &str, max_len: usize) -> (widths: Vec<usize>)
    ensures
        widths@.len() <= name@.len(),
        forall|i: int| 0 <= i < widths@.len() ==> widths@[i] == prefix_widths(name@)[i],
        widths@.len() == name@.len() || (widths@.len() > 0 && widths@.last() >= max_len),
        name@.len() > 0 ==> display_width(Seq::<char>::empty()) == 0,
{
    let count = name.unicode_len();
    let mut widths: Vec<usize> = Vec::new();
    let mut taken: usize = 0;
    let mut fits = true;
    while taken < count && fits
        invariant
            count == name@.len(),
            taken <= count,
            widths@.len() == taken,
            forall|i: int| 0 <= i < widths@.len() ==> widths@[i] == prefix_widths(name@)[i],
            !fits ==> widths@.len() > 0 && widths@.last() >= max_len,
            taken > 0 ==> display_width(Seq::<char>::empty()) == 0,
        decreases count - taken + if fits { 1int } else { 0int },
    {
        let width = width_of(name.substring_char(0, taken));
        assert(name@.subrange(0, taken as int) == name@.take(taken as int));
        assert(taken == 0 ==> name@.take(0) =~= Seq::<char>::empty());
        widths.push(width);
        fits = width < max_len;
        taken += 1;
    }
    widths
}

/// The part of `name` that is shown: all of it where its width is within
/// `max_length`, else the longest prefix that ends before the first prefix
/// whose width is not below the limit.
pub open spec fn visible_text(name: Seq<char>, max_length: Option<usize>) -> Seq<char> {
    match max_length {
        Some(max) if display_width(name) > max => name.take(
            cut_index(prefix_widths(name), max) as int,
        ),
        _ => name,
    }
}

/// Whether `name` is cut short under `max_length`.
pub open spec fn is_cut(name: Seq<char>, max_length: Option<usize>) -> bool {
    max_length matches Some(max) && display_width(name) > max
}

/// What is written for `name`: the visible part, the ellipsis marker where
/// the name was cut, and quotes around both where asked for.
pub open spec fn truncated(name: Seq<char>, max_length: Option<usize>, quoted: bool) -> Seq<char> {
    let quote = if quoted {
        seq!['"']
    } else {
        Seq::<char>::empty()
    };
    let marker = if is_cut(name, max_length) {
        seq![ellipsis()]
    } else {
        Seq::<char>::empty()
    };
    quote + visible_text(name, max_length) + marker + quote
}

/// The visible part is made of whole characters of `name`, from its start.
pub proof fn lemma_visible_text_is_prefix(name: Seq<char>, max_length: Option<usize>)
    ensures
        visible_text(name, max_length).is_prefix_of(name),
{
    if is_cut(name, max_length) {
        let max = max_length->0;
        lemma_fitting_run(prefix_widths(name), max, 0);
    }
}

/// Appends `name` to `out`, cut to `max_length` columns where it is wider,
/// with an ellipsis marker behind what is left, and in quotes where
/// `surround_with_quotes` is set. The visible part is never wider than the limit.
pub fn print_ansi_truncated(
    max_length: Option<usize>,
    out: &mut String,
    name: &str,
    surround_with_quotes: bool,
)
    ensures
        final(out)@ == old(out)@ + truncated(name@, max_length, surround_with_quotes),
        max_length matches Some(max) ==> display_width(visible_text(name@, max_length)) <= max,
{
    if surround_with_quotes {
        out.push('"');
    }
    let mut cut = false;
    if let Some(max_len) = max_length {
        if width_of(name) > max_len {
            cut = true;
            let widths = leading_widths(name, max_len);
            let keep = last_fitting(&widths, max_len);
            proof {
                lemma_fitting_run_of_prefix(prefix_widths(name@), widths@, max_len, 0);
                lemma_fitting_run(prefix_widths(name@), max_len, 0);
                if fitting_run(prefix_widths(name@), max_len, 0) == 0 {
                    assert(name@.take(0) =~= Seq::<char>::empty());
                } else {
                    assert(prefix_widths(name@)[keep as int] < max_len);
                }
            }
            out.append(name.substring_char(0, keep));
            out.push('\u{2026}');
        }
    }
    if !cut {
        out.append(name);
    }
    if surround_with_quotes {
        out.push('"');
    }
    assert(final(out)@ =~= old(out)@ + truncated(name@, max_length, surround_with_quotes));
}

/// Whether the name `a` comes before the name `b`: at the first place where
/// the two differ `a` has the smaller character, or `a` ends there and `b`
/// goes on.
pub open spec fn name_lt(a: Seq<char>, b: Seq<char>) -> bool
    decreases a.len(),
{
    if b.len() == 0 {
        false
    } else if a.len() == 0 {
        true
    } else if a[0] != b[0] {
        a[0] < b[0]
    } else {
        name_lt(a.drop_first(), b.drop_first())
    }
}

/// No name comes before itself.
pub proof fn lemma_name_lt_irreflexive(a: Seq<char>)
    ensures
        !name_lt(a, a),
    decreases a.len(),
{
    if a.len() > 0 {
        lemma_name_lt_irreflexive(a.drop_first());
    }
}

/// Of two different names one comes before the other.
pub proof fn lemma_name_lt_total(a: Seq<char>, b: Seq<char>)
    ensures
        a == b || name_lt(a, b) || name_lt(b, a),
    decreases a.len(),
{
    if a.len() == 0 || b.len() == 0 {
        if a.len() == 0 && b.len() == 0 {
            assert(a =~= b);
        }
    } else if a[0] == b[0] {
        lemma_name_lt_total(a.drop_first(), b.drop_first());
        if a.drop_first() == b.drop_first() {
            assert(a =~= seq![a[0]] + a.drop_first());
            assert(b =~= seq![b[0]] + b.drop_first());
        }
    }
}

/// The order of names is transitive.
pub proof fn lemma_name_lt_transitive(a: Seq<char>, b: Seq<char>, c: Seq<char>)
    requires
        name_lt(a, b),
        name_lt(b, c),
    ensures
        name_lt(a, c),
    decreases a.len(),
{
    if a.len() > 0 && a[0] == b[0] && b[0] == c[0] {
        lemma_name_lt_transitive(a.drop_first(), b.drop_first(), c.drop_first());
    }
}

/// Dropping a common prefix does not change the order of two names.
proof fn lemma_name_lt_skip(a: Seq<char>, b: Seq<char>, common: int)
    requires
        0 <= common <= a.len(),
        common <= b.len(),
        a.take(common) == b.take(common),
    ensures
        name_lt(a, b) == name_lt(a.skip(common), b.skip(common)),
    decreases common,
{
    if common > 0 {
        assert(a[0] == a.take(common)[0]);
        assert(b[0] == b.take(common)[0]);
        assert(a.drop_first().take(common - 1) =~= a.take(common).drop_first());
        assert(b.drop_first().take(common - 1) =~= b.take(common).drop_first());
        lemma_name_lt_skip(a.drop_first(), b.drop_first(), common - 1);
        assert(a.drop_first().skip(common - 1) =~= a.skip(common));
        assert(b.drop_first().skip(common - 1) =~= b.skip(common));
    } else {
        assert(a.skip(0) =~= a);
        assert(b.skip(0) =~= b);
    }
}

/// How one name stands to another in the order of names.
#[derive(Clone, Copy, Debug, PartialEq, Eq, Structural)]
pub enum NameOrder {
    Before,
    Same,
    After,
}

fn chars_of(text: &str) -> (chars: Vec<char>)
    ensures
        chars@ == text@,
{
    let mut chars: Vec<char> = Vec::new();
    for ch in it: text.chars()
        invariant
            chars@ == it.seq().take(it.index() as int),
            it.seq() == text@,
    {
        chars.push(ch);
    }
    chars
}

/// Compares two names character by character.
pub fn compare_names(a: &str, b: &str) -> (order: NameOrder)
    ensures
        order == NameOrder::Before <==> name_lt(a@, b@),
        order == NameOrder::Same <==> a@ == b@,
        order == NameOrder::After <==> name_lt(b@, a@),
{
    let left = chars_of(a);
    let right = chars_of(b);
    let mut at: usize = 0;
    while at < left.len() && at < right.len() && left[at] == right[at]
        invariant
            left@ == a@,
            right@ == b@,
            at <= left.len(),
            at <= right.len(),
            left@.take(at as int) == right@.take(at as int),
        decreases left.len() - at,
    {
        assert(left@.take(at + 1) =~= left@.take(at as int).push(left@[at as int]));
        assert(right@.take(at + 1) =~= right@.take(at as int).push(right@[at as int]));
        at += 1;
    }
    proof {
        lemma_name_lt_skip(a@, b@, at as int);
        lemma_name_lt_skip(b@, a@, at as int);
        lemma_name_lt_irreflexive(a@);
        if at == left.len() && at == right.len() {
            assert(a@ =~= a@.take(at as int));
            assert(b@ =~= b@.take(at as int));
        } else {
            assert(a@ != b@) by {
                if a@ == b@ {
                    assert(a@.len() == b@.len());
                    assert(a@[at as int] == b@[at as int]);
                }
            }
        }
    }
    if at == left.len() {
        if at == right.len() {
            NameOrder::Same
        } else {
            NameOrder::Before
        }
    } else if at == right.len() {
        NameOrder::After
    } else if left[at] < right[at] {
        NameOrder::Before
    } else {
        NameOrder::After
    }
}

/// The character of a digit below sixteen: `0` to `9`, then `a` to `f`.
pub open spec fn digit_char(digit: int) -> char {
    seq!['0', '1', '2', '3', '4', '5', '6', '7', '8', '9', 'a', 'b', 'c', 'd', 'e', 'f'][digit]
}

/// The decimal digits of `value`, most significant first, without leading zeros.
pub open spec fn decimal(value: nat) -> Seq<char>
    decreases value,
{
    if value < 10 {
        seq![digit_char(value as int)]
    } else {
        decimal(value / 10).push(digit_char((value % 10) as int))
    }
}

/// The two lower-case hexadecimal digits of each byte, in order.
pub open spec fn hex(bytes: Seq<u8>) -> Seq<char> {
    Seq::new(
        2 * bytes.len(),
        |i: int|
            if i % 2 == 0 {
                digit_char(bytes[i / 2] as int / 16)
            } else {
                digit_char(bytes[i / 2] as int % 16)
            },
    )
}

fn digit_of(digit: u8) -> (ch: char)
    requires
        digit < 16,
    ensures
        ch == digit_char(digit as int),
{
    match digit {
        0 => '0',
        1 => '1',
        2 => '2',
        3 => '3',
        4 => '4',
        5 => '5',
        6 => '6',
        7 => '7',
        8 => '8',
        9 => '9',
        10 => 'a',
        11 => 'b',
        12 => 'c',
        13 => 'd',
        14 => 'e',
        _ => 'f',
    }
}

/// Appends the decimal digits of `value` to `out`.
pub fn push_decimal(out: &mut String, value: usize)
    ensures
        final(out)@ == old(out)@ + decimal(value as nat),
    decreases value,
{
    if value >= 10 {
        push_decimal(out, value / 10);
    }
    let last: u8 = (value % 10) as u8;
    out.push(digit_of(last));
    assert(final(out)@ =~= old(out)@ + decimal(value as nat));
}

/// Appends the hexadecimal digits of `bytes` to `out`.
pub fn push_hex(out: &mut String, bytes: &Vec<u8>)
    ensures
        final(out)@ == old(out)@ + hex(bytes@),
{
    let mut done: usize = 0;
    while done < bytes.len()
        invariant
            done <= bytes.len(),
            out@ == old(out)@ + hex(bytes@.take(done as int)),
        decreases bytes.len() - done,
    {
        let byte = bytes[done];
        out.push(digit_of(byte / 16));
        out.push(digit_of(byte % 16));
        done += 1;
        assert(hex(bytes@.take(done as int)) =~= hex(bytes@.take(done - 1)).push(
            digit_char(byte as int / 16),
        ).push(digit_char(byte as int % 16)));
    }
    assert(bytes@.take(done as int) =~= bytes@);
}

/// The number of characters of `text` in front of its first line break, or
/// all of them where there is none.
pub open spec fn first_line_len(text: Seq<char>) -> nat
    decreases text.len(),
{
    if text.len() == 0 || text[0] == '\r' || text[0] == '\n' {
        0
    } else {
        1 + first_line_len(text.drop_first())
    }
}

/// The text in front of the first carriage return or line feed.
pub open spec fn first_line(text: Seq<char>) -> Seq<char> {
    text.take(first_line_len(text) as int)
}

/// The first line holds no line break, and what follows it is nothing or
/// begins with one.
pub proof fn lemma_first_line(text: Seq<char>)
    ensures
        first_line_len(text) <= text.len(),
        forall|i: int| 0 <= i < first_line_len(text) ==> text[i] != '\r' && text[i] != '\n',
        first_line_len(text) < text.len() ==> text[first_line_len(text) as int] == '\r'
            || text[first_line_len(text) as int] == '\n',
    decreases text.len(),
{
    if !(text.len() == 0 || text[0] == '\r' || text[0] == '\n') {
        lemma_first_line(text.drop_first());
        assert forall|i: int| 0 <= i < first_line_len(text) implies text[i] != '\r' && text[i]
            != '\n' by {
            if i > 0 {
                assert(text[i] == text.drop_first()[i - 1]);
            }
        }
    }
}

/// A line without a break that is followed by a break, or by nothing, is the first line.
proof fn lemma_first_line_found(text: Seq<char>, len: int)
    requires
        0 <= len <= text.len(),
        forall|i: int| 0 <= i < len ==> text[i] != '\r' && text[i] != '\n',
        len < text.len() ==> text[len] == '\r' || text[len] == '\n',
    ensures
        first_line_len(text) == len,
    decreases text.len(),
{
    if len > 0 {
        assert(text[0] != '\r' && text[0] != '\n');
        assert forall|i: int| 0 <= i < len - 1 implies text.drop_first()[i] != '\r'
            && text.drop_first()[i] != '\n' by {
            assert(text.drop_first()[i] == text[i + 1]);
        }
        lemma_first_line_found(text.drop_first(), len - 1);
    }
}

/// The first line of `text`.
pub fn first_line_of(text: &str) -> (line: &str)
    ensures
        line@ == first_line(text@),
{
    let chars = chars_of(text);
    let mut len: usize = 0;
    while len < chars.len() && chars[len] != '\r' && chars[len] != '\n'
        invariant
            len <= chars.len(),
            chars@ == text@,
            forall|i: int| 0 <= i < len ==> text@[i] != '\r' && text@[i] != '\n',
        decreases chars.len() - len,
    {
        len += 1;
    }
    proof {
        lemma_first_line_found(text@, len as int);
    }
    text.substring_char(0, len)
}

} // verus!
