use crate::mesh::Face;
use crate::vector::{Scalar, Vec3};
use vstd::prelude::*;

verus! {

/// Why a line of a geometry file gives no face.
#[derive(Clone, Copy, Debug, PartialEq, Eq, Structural)]
pub enum ObjError {
    /// A field of the line is not a whole number that fits an index.
    BadIndex,
    /// The line has fewer than three fields.
    MissingIndex,
    /// A vertex line has fewer than three coordinates.
    MissingCoordinate,
}

/// Whether `c` separates fields: a character with the Unicode property
/// `White_Space`.
pub open spec fn is_space(c: char) -> bool {
    let code = c as u32;
    code == 0x20 || (0x9 <= code <= 0xD) || code == 0x85 || code == 0xA0 || code == 0x1680 || (
    0x2000 <= code <= 0x200A) || code == 0x2028 || code == 0x2029 || code == 0x202F || code
        == 0x205F || code == 0x3000
}

/// Whether `first` stands somewhere in `text` with `second` right behind it.
pub open spec fn has_pair(text: Seq<char>, first: char, second: char) -> bool {
    exists|i: int| 0 <= i < text.len() - 1 && text[i] == first && #[trigger] text[i + 1] == second
}

/// Whether a line gives a vertex: it holds "v " and no "#".
pub open spec fn vertex_line(line: Seq<char>) -> bool {
    has_pair(line, 'v', ' ') && !line.contains('#')
}

/// Whether a line gives a face: it holds "f " and no "#".
pub open spec fn face_line(line: Seq<char>) -> bool {
    has_pair(line, 'f', ' ') && !line.contains('#')
}

/// Where the field that holds place `from` ends: the place of the first
/// separator at or after `from`, or the end of the text.
pub open spec fn field_end(text: Seq<char>, from: int) -> int
    decreases text.len() - from,
{
    if from < 0 || from >= text.len() || is_space(text[from]) {
        from
    } else {
        field_end(text, from + 1)
    }
}

/// The fields of `text` from place `from` on: the longest runs of characters
/// that are no separators, in their order.
pub open spec fn fields_from(text: Seq<char>, from: int) -> Seq<Seq<char>>
    decreases text.len() - from,
{
    if from < 0 || from >= text.len() {
        seq![]
    } else if is_space(text[from]) {
        fields_from(text, from + 1)
    } else {
        proof {
            lemma_field_end(text, from);
        }
        seq![text.subrange(from, field_end(text, from))] + fields_from(
            text,
            field_end(text, from),
        )
    }
}

/// The fields of `text`.
pub open spec fn fields(text: Seq<char>) -> Seq<Seq<char>> {
    fields_from(text, 0)
}

/// `text` from place `from` on without any "f ": the text is read from left
/// to right, and an "f " that is met is left out.
pub open spec fn without_marker_from(text: Seq<char>, from: int) -> Seq<char>
    decreases text.len() - from,
{
    if from < 0 || from >= text.len() {
        seq![]
    } else if from + 1 < text.len() && text[from] == 'f' && text[from + 1] == ' ' {
        without_marker_from(text, from + 2)
    } else {
        seq![text[from]] + without_marker_from(text, from + 1)
    }
}

/// `text` without any "f ".
pub open spec fn without_marker(text: Seq<char>) -> Seq<char> {
    without_marker_from(text, 0)
}

/// The place of the first '/' of `field` at or after `from`, or the length
/// of the field.
pub open spec fn slash_at(field: Seq<char>, from: int) -> int
    decreases field.len() - from,
{
    if from < 0 || from >= field.len() || field[from] == '/' {
        from
    } else {
        slash_at(field, from + 1)
    }
}

/// What stands before the first '/' of `field`; all of it where it has
/// none.
pub open spec fn before_slash(field: Seq<char>) -> Seq<char> {
    field.take(slash_at(field, 0))
}

/// Whether `c` is one of the digits 0 to 9.
pub open spec fn is_digit(c: char) -> bool {
    0x30 <= c as u32 <= 0x39
}

/// The number that a run of digits writes in base ten.
pub open spec fn digits_value(digits: Seq<char>) -> nat
    decreases digits.len(),
{
    if digits.len() == 0 {
        0
    } else {
        (digits_value(digits.drop_last()) * 10 + (digits.last() as u32 - 0x30)) as nat
    }
}

/// The digits of a field: the field without one leading '+'.
pub open spec fn unsigned_part(field: Seq<char>) -> Seq<char> {
    if field.len() > 0 && field[0] == '+' {
        field.skip(1)
    } else {
        field
    }
}

/// The index that `field` writes, if any: after an optional '+' it holds
/// digits only, and at least one; the number must fit a `usize`.
pub open spec fn index_of(field: Seq<char>) -> Option<usize> {
    let digits = unsigned_part(field);
    if digits.len() > 0 && (forall|i: int| 0 <= i < digits.len() ==> is_digit(#[trigger] digits[i]))
        && digits_value(digits) <= usize::MAX {
        Some(digits_value(digits) as usize)
    } else {
        None
    }
}

/// The fields of a face line that hold its indices: the line is taken
/// without any "f ", and each of its fields up to its first '/'.
pub open spec fn index_fields(line: Seq<char>) -> Seq<Seq<char>> {
    fields(without_marker(line)).map_values(|field: Seq<char>| before_slash(field))
}

/// What each of `fields` holds, as a sequence of characters.
pub open spec fn texts(fields: Seq<Vec<char>>) -> Seq<Seq<char>> {
    fields.map_values(|field: Vec<char>| field@)
}

/// The indices of the face that `line` gives, or why it gives none: every
/// index field must write an index, and there must be three of them at
/// least. The first three count.
pub open spec fn face_indices_of(line: Seq<char>) -> Result<(usize, usize, usize), ObjError> {
    let written = index_fields(line);
    if exists|k: int| 0 <= k < written.len() && index_of(#[trigger] written[k]) is None {
        Err(ObjError::BadIndex)
    } else if written.len() < 3 {
        Err(ObjError::MissingIndex)
    } else {
        Ok(
            (
                index_of(written[0])->Some_0,
                index_of(written[1])->Some_0,
                index_of(written[2])->Some_0,
            ),
        )
    }
}

/// A field that starts at a character which is no separator ends behind it,
/// inside the text; up to its end it holds no separator.
pub proof fn lemma_field_end(text: Seq<char>, from: int)
    requires
        0 <= from < text.len(),
        !is_space(text[from]),
    ensures
        from < field_end(text, from) <= text.len(),
        forall|k: int| from <= k < field_end(text, from) ==> !is_space(#[trigger] text[k]),
        field_end(text, from) < text.len() ==> is_space(text[field_end(text, from)]),
    decreases text.len() - from,
{
    assert(field_end(text, from) == field_end(text, from + 1));
    if from + 1 < text.len() && !is_space(text[from + 1]) {
        lemma_field_end(text, from + 1);
    } else {
        assert(field_end(text, from + 1) == from + 1);
    }
}

/// Whether `c` separates fields.
pub fn is_whitespace(c: char) -> (space: bool)
    ensures
        space == is_space(c),
{
    let code = c as u32;
    code == 0x20 || (0x9 <= code && code <= 0xD) || code == 0x85 || code == 0xA0 || code == 0x1680
        || (0x2000 <= code && code <= 0x200A) || code == 0x2028 || code == 0x2029 || code
        == 0x202F || code == 0x205F || code == 0x3000
}

/// Whether `first` stands somewhere in `text` with `second` right behind it.
fn holds_pair(text: &[char], first: char, second: char) -> (found: bool)
    ensures
        found == has_pair(text@, first, second),
{
    let mut i: usize = 0;
    while i < text.len()
        invariant
            i <= text@.len(),
            forall|k: int|
                0 <= k < i && k < text@.len() - 1 ==> !(text@[k] == first && #[trigger] text@[k + 1]
                    == second),
        decreases text@.len() - i,
    {
        if i + 1 < text.len() && text[i] == first && text[i + 1] == second {
            return true;
        }
        i += 1;
    }
    false
}

/// Whether `wanted` stands somewhere in `text`.
fn holds_char(text: &[char], wanted: char) -> (found: bool)
    ensures
        found == text@.contains(wanted),
{
    let mut i: usize = 0;
    while i < text.len()
        invariant
            i <= text@.len(),
            forall|k: int| 0 <= k < i ==> text@[k] != wanted,
        decreases text@.len() - i,
    {
        if text[i] == wanted {
            return true;
        }
        i += 1;
    }
    false
}

/// Whether a line gives a vertex.
pub fn is_vertex_line(line: &[char]) -> (vertex: bool)
    ensures
        vertex == vertex_line(line@),
{
    holds_pair(line, 'v', ' ') && !holds_char(line, '#')
}

/// Whether a line gives a face.
pub fn is_face_line(line: &[char]) -> (face: bool)
    ensures
        face == face_line(line@),
{
    holds_pair(line, 'f', ' ') && !holds_char(line, '#')
}

/// The fields of `text`: what stands between its separators.
pub fn split_fields(text: &[char]) -> (found: Vec<Vec<char>>)
    ensures
        texts(found@) == fields(text@),
{
    let mut found: Vec<Vec<char>> = Vec::new();
    let mut i: usize = 0;
    while i < text.len()
        invariant
            i <= text@.len(),
            fields(text@) == texts(found@) + fields_from(text@, i as int),
        decreases text@.len() - i,
    {
        if is_whitespace(text[i]) {
            i += 1;
        } else {
            let start = i;
            let mut field: Vec<char> = Vec::new();
            proof {
                lemma_field_end(text@, start as int);
            }
            while i < text.len() && !is_whitespace(text[i])
                invariant
                    start <= i <= field_end(text@, start as int) <= text@.len(),
                    field@ == text@.subrange(start as int, i as int),
                    forall|k: int|
                        start <= k < field_end(text@, start as int) ==> !is_space(
                            #[trigger] text@[k],
                        ),
                    field_end(text@, start as int) < text@.len() ==> is_space(
                        text@[field_end(text@, start as int)],
                    ),
                decreases text@.len() - i,
            {
                field.push(text[i]);
                i += 1;
                assert(field@ =~= text@.subrange(start as int, i as int));
            }
            let ghost before = found@;
            found.push(field);
            proof {
                assert(i == field_end(text@, start as int));
                assert(texts(found@) =~= texts(before) + seq![
                    text@.subrange(start as int, i as int),
                ]);
                assert(fields_from(text@, start as int) == seq![
                    text@.subrange(start as int, i as int),
                ] + fields_from(text@, i as int));
                assert(texts(found@) + fields_from(text@, i as int) =~= texts(before)
                    + fields_from(text@, start as int));
            }
        }
    }
    assert(texts(found@) + fields_from(text@, i as int) =~= texts(found@));
    found
}

/// The fields of a vertex line that hold its coordinates: those without a
/// 'v'.
pub fn vertex_fields(line: &[char]) -> (found: Vec<Vec<char>>)
    ensures
        texts(found@) == fields(line@).filter(|field: Seq<char>| !field.contains('v')),
{
    let all = split_fields(line);
    let ghost keep = |field: Seq<char>| !field.contains('v');
    let mut found: Vec<Vec<char>> = Vec::new();
    let mut i: usize = 0;
    proof {
        assert(texts(all@).take(0) =~= Seq::<Seq<char>>::empty());
        broadcast use vstd::seq_lib::group_filter_ensures;

        assert(texts(found@) =~= texts(all@).take(0).filter(keep));
    }
    while i < all.len()
        invariant
            i <= all@.len(),
            keep == |field: Seq<char>| !field.contains('v'),
            texts(found@) == texts(all@).take(i as int).filter(keep),
        decreases all@.len() - i,
    {
        let ghost before = found@;
        let has_v = holds_char(all[i].as_slice(), 'v');
        if !has_v {
            found.push(all[i].clone());
        }
        proof {
            let prefix = texts(all@).take(i as int);
            let field = all@[i as int]@;
            assert(texts(all@).take(i + 1) =~= prefix.push(field));
            lemma_filter_push(prefix, field, keep);
            if !has_v {
                assert(texts(found@) =~= texts(before).push(field));
            }
        }
        i += 1;
    }
    assert(texts(all@).take(all@.len() as int) =~= texts(all@));
    found
}

/// Filtering a sequence that got one more element: the element is added to
/// what was kept if it is kept itself.
proof fn lemma_filter_push<A>(s: Seq<A>, last: A, keep: spec_fn(A) -> bool)
    ensures
        s.push(last).filter(keep) == if keep(last) {
            s.filter(keep).push(last)
        } else {
            s.filter(keep)
        },
{
    reveal(Seq::filter);
    assert(s.push(last).drop_last() =~= s);
}

/// The vertex that the coordinates of a vertex line give: its first three
/// coordinates count, and fewer than three give no vertex.
pub fn vertex_from(coords: &Vec<Scalar>) -> (made: Result<Vec3, ObjError>)
    ensures
        made is Ok <==> coords@.len() >= 3,
        made matches Ok(vertex) ==> vertex == Vec3(coords@[0], coords@[1], coords@[2]),
        made matches Err(error) ==> error == ObjError::MissingCoordinate,
{
    if coords.len() < 3 {
        return Err(ObjError::MissingCoordinate);
    }
    Ok(Vec3(coords[0], coords[1], coords[2]))
}

/// `text` without any "f ".
pub fn strip_marker(text: &[char]) -> (stripped: Vec<char>)
    ensures
        stripped@ == without_marker(text@),
{
    let mut stripped: Vec<char> = Vec::new();
    let mut i: usize = 0;
    while i < text.len()
        invariant
            i <= text@.len(),
            without_marker(text@) == stripped@ + without_marker_from(text@, i as int),
        decreases text@.len() - i,
    {
        if i + 1 < text.len() && text[i] == 'f' && text[i + 1] == ' ' {
            i += 2;
        } else {
            let ghost before = stripped@;
            stripped.push(text[i]);
            assert(stripped@ + without_marker_from(text@, i + 1) =~= before + (seq![text@[i as int]]
                + without_marker_from(text@, i + 1)));
            i += 1;
        }
    }
    assert(stripped@ + without_marker_from(text@, i as int) =~= stripped@);
    stripped
}

/// The value of a run of digits grows with each digit that is added, so
/// once a part of it is too large for an index the whole is.
proof fn lemma_digits_value_grows(digits: Seq<char>, shorter: int)
    requires
        0 <= shorter <= digits.len(),
        forall|k: int| 0 <= k < digits.len() ==> is_digit(#[trigger] digits[k]),
    ensures
        digits_value(digits.take(shorter)) <= digits_value(digits),
    decreases digits.len() - shorter,
{
    if shorter < digits.len() {
        lemma_digits_value_grows(digits, shorter + 1);
        let longer = digits.take(shorter + 1);
        assert(longer.drop_last() =~= digits.take(shorter));
        assert(is_digit(digits[shorter]) && longer.last() == digits[shorter]);
        assert(digits_value(longer) == digits_value(longer.drop_last()) * 10 + (longer.last() as u32
            - 0x30));
    } else {
        assert(digits.take(shorter) =~= digits);
    }
}

/// The index that `field` writes, if it writes one.
pub fn parse_index(field: &[char]) -> (index: Option<usize>)
    ensures
        index == index_of(field@),
{
    let start: usize = if field.len() > 0 && field[0] == '+' {
        1
    } else {
        0
    };
    let ghost digits = unsigned_part(field@);
    assert(digits =~= field@.skip(start as int));
    if start == field.len() {
        return None;
    }
    let mut value: usize = 0;
    let mut i: usize = start;
    assert(digits.take(0) =~= Seq::<char>::empty());
    while i < field.len()
        invariant
            start <= i <= field@.len(),
            digits == field@.skip(start as int),
            digits == unsigned_part(field@),
            digits.len() > 0,
            forall|k: int| 0 <= k < i - start ==> is_digit(#[trigger] digits[k]),
            value == digits_value(digits.take(i - start)),
        decreases field@.len() - i,
    {
        let code = field[i] as u32;
        assert(field@[i as int] == digits[i - start]);
        if code < 0x30 || code > 0x39 {
            assert(!is_digit(digits[i - start]));
            return None;
        }
        let digit = (code - 0x30) as usize;
        proof {
            let longer = digits.take(i - start + 1);
            assert(longer.drop_last() =~= digits.take(i - start));
            assert(longer.last() == digits[i - start]);
            assert(digits_value(longer) == value * 10 + digit);
        }
        if value > (usize::MAX - digit) / 10 {
            proof {
                if forall|k: int| 0 <= k < digits.len() ==> is_digit(#[trigger] digits[k]) {
                    lemma_digits_value_grows(digits, i - start + 1);
                }
            }
            return None;
        }
        value = value * 10 + digit;
        i += 1;
    }
    assert(digits.take(i - start) =~= digits);
    Some(value)
}

/// What stands before the first '/' of `field`.
fn cut_at_slash(field: &[char]) -> (cut: Vec<char>)
    ensures
        cut@ == before_slash(field@),
{
    let mut cut: Vec<char> = Vec::new();
    let mut i: usize = 0;
    while i < field.len() && field[i] != '/'
        invariant
            i <= field@.len(),
            slash_at(field@, 0) == slash_at(field@, i as int),
            cut@ == field@.take(i as int),
        decreases field@.len() - i,
    {
        cut.push(field[i]);
        i += 1;
        assert(cut@ =~= field@.take(i as int));
    }
    cut
}

/// The indices of the face that `line` gives, or why it gives none.
pub fn face_indices(line: &[char]) -> (indices: Result<(usize, usize, usize), ObjError>)
    ensures
        indices == face_indices_of(line@),
{
    let stripped = strip_marker(line);
    let found = split_fields(stripped.as_slice());
    let ghost written = index_fields(line@);
    assert(written.len() == found@.len());
    let mut values: Vec<usize> = Vec::new();
    let mut i: usize = 0;
    while i < found.len()
        invariant
            i <= found@.len(),
            written == index_fields(line@),
            texts(found@) == fields(without_marker(line@)),
            written.len() == found@.len(),
            values@.len() == i,
            forall|k: int| 0 <= k < i ==> index_of(#[trigger] written[k]) == Some(values@[k]),
        decreases found@.len() - i,
    {
        let cut = cut_at_slash(found[i].as_slice());
        assert(texts(found@)[i as int] == found@[i as int]@);
        assert(cut@ == written[i as int]);
        match parse_index(cut.as_slice()) {
            Some(value) => {
                values.push(value);
            },
            None => {
                return Err(ObjError::BadIndex);
            },
        }
        i += 1;
    }
    if values.len() < 3 {
        return Err(ObjError::MissingIndex);
    }
    Ok((values[0], values[1], values[2]))
}

/// The face that `line` gives in the color `color`, or why it gives none.
pub fn face_from_line(line: &[char], color: u32) -> (face: Result<Face, ObjError>)
    ensures
        face_indices_of(line@) matches Ok(indices) ==> face matches Ok(made) && made.0 == indices.0
            && made.1 == indices.1 && made.2 == indices.2 && made.3 == color,
        face_indices_of(line@) matches Err(error) ==> face == Err::<Face, ObjError>(error),
{
    match face_indices(line) {
        Ok((first, second, third)) => Ok(Face(first, second, third, color)),
        Err(error) => Err(error),
    }
}

/// `rand::random::<u32>()`: a number drawn from the generator of the running
/// thread. Nothing is promised of the number.
#[verifier::external_body]
fn random_color() -> u32 {
    rand::random::<u32>()
}

/// The face that `line` gives, in a color picked at random, or why it gives
/// none.
pub fn parse_face_line(line: &[char]) -> (face: Result<Face, ObjError>)
    ensures
        face_indices_of(line@) matches Ok(indices) ==> face matches Ok(made) && made.0 == indices.0
            && made.1 == indices.1 && made.2 == indices.2,
        face_indices_of(line@) matches Err(error) ==> face == Err::<Face, ObjError>(error),
{
    face_from_line(line, random_color())
}

} // verus!
