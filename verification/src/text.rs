//! Text operations: trimming line ends, joining lines, substrings.
use vstd::prelude::*;

verus! {

/// A line feed or a carriage return.
pub open spec fn is_line_end(c: char) -> bool {
    c == '\n' || c == '\r'
}

/// `line` without the line ends at its end, however many there are.
pub open spec fn trimmed(line: Seq<char>) -> Seq<char>
    decreases line.len(),
{
    if line.len() > 0 && is_line_end(line.last()) {
        trimmed(line.drop_last())
    } else {
        line
    }
}

/// The lines one after the other, with `separator` between neighbours.
pub open spec fn joined(lines: Seq<Seq<char>>, separator: Seq<char>) -> Seq<char>
    decreases lines.len(),
{
    if lines.len() == 0 {
        Seq::empty()
    } else if lines.len() == 1 {
        lines[0]
    } else {
        joined(lines.drop_last(), separator) + separator + lines.last()
    }
}

/// `part` occurs in `whole` as a run of neighbouring characters.
pub open spec fn contains_text(whole: Seq<char>, part: Seq<char>) -> bool {
    exists|before: Seq<char>, after: Seq<char>| whole == #[trigger] (before + part + after)
}

/// What a text contains, every longer text built around it contains.
pub proof fn lemma_contains_text_around(
    before: Seq<char>,
    whole: Seq<char>,
    after: Seq<char>,
    part: Seq<char>,
)
    requires
        contains_text(whole, part),
    ensures
        contains_text(before + whole + after, part),
{
    let (inner_before, inner_after) = choose|b: Seq<char>, a: Seq<char>|
        whole == #[trigger] (b + part + a);
    assert(before + whole + after =~= (before + inner_before) + part + (inner_after + after));
}

/// A text contains itself.
pub proof fn lemma_contains_text_self(whole: Seq<char>)
    ensures
        contains_text(whole, whole),
{
    assert(whole =~= Seq::<char>::empty() + whole + Seq::<char>::empty());
}

/// Joined lines contain each of the lines.
pub proof fn lemma_joined_contains(lines: Seq<Seq<char>>, separator: Seq<char>, index: int)
    requires
        0 <= index < lines.len(),
    ensures
        contains_text(joined(lines, separator), lines[index]),
    decreases lines.len(),
{
    if lines.len() == 1 {
        lemma_contains_text_self(lines[0]);
    } else {
        let head = joined(lines.drop_last(), separator);
        if index == lines.len() - 1 {
            assert(joined(lines, separator) =~= (head + separator) + lines.last()
                + Seq::<char>::empty());
        } else {
            lemma_joined_contains(lines.drop_last(), separator, index);
            assert(lines.drop_last()[index] == lines[index]);
            lemma_contains_text_around(
                Seq::empty(),
                head,
                separator + lines.last(),
                lines[index],
            );
            assert(joined(lines, separator) =~= Seq::<char>::empty() + head + (separator
                + lines.last()));
        }
    }
}

/// Appending one character either extends the run of line ends at the end or
/// starts the whole text over.
proof fn lemma_trimmed_push(prefix: Seq<char>, c: char)
    ensures
        trimmed(prefix.push(c)) == if is_line_end(c) {
            trimmed(prefix)
        } else {
            prefix.push(c)
        },
{
    assert(prefix.push(c).drop_last() =~= prefix);
}

/// A trimmed line is a prefix of the line; what was cut off are line ends, and
/// what is left does not end in one.
pub proof fn lemma_trimmed_shape(line: Seq<char>)
    ensures
        trimmed(line).len() <= line.len(),
        trimmed(line) == line.take(trimmed(line).len() as int),
        forall|i: int| trimmed(line).len() <= i < line.len() ==> is_line_end(#[trigger] line[i]),
        trimmed(line).len() > 0 ==> !is_line_end(trimmed(line).last()),
    decreases line.len(),
{
    if line.len() > 0 && is_line_end(line.last()) {
        let rest = line.drop_last();
        lemma_trimmed_shape(rest);
        assert(rest.take(trimmed(line).len() as int) =~= line.take(trimmed(line).len() as int));
        assert forall|i: int| trimmed(line).len() <= i < line.len() implies is_line_end(
            #[trigger] line[i],
        ) by {
            if i < rest.len() {
                assert(rest[i] == line[i]);
            }
        }
    } else {
        assert(line.take(line.len() as int) =~= line);
    }
}

/// Returns `line` without the line ends at its end.
pub fn trim_line_ends(line: &str) -> (result: String)
    ensures
        result@ == trimmed(line@),
{
    let total: usize = line.unicode_len();
    let mut seen: usize = 0;
    let mut kept: usize = 0;
    for c in it: line.chars()
        invariant
            total == line@.len(),
            it.seq() == line@,
            seen == it.index(),
            kept <= seen <= total,
            trimmed(line@.take(seen as int)) == line@.take(kept as int),
    {
        proof {
            assert(c == line@[seen as int]);
            assert(line@.take(seen + 1) =~= line@.take(seen as int).push(c));
            lemma_trimmed_push(line@.take(seen as int), c);
        }
        seen = seen + 1;
        if c != '\n' && c != '\r' {
            kept = seen;
        }
    }
    proof {
        assert(line@.take(seen as int) =~= line@);
        assert(line@.take(kept as int) =~= line@.subrange(0, kept as int));
    }
    line.substring_char(0, kept).to_owned()
}

} // verus!
