//! What is written is read back: the proof that the text of a level
//! describes that level.

use vstd::multiset::Multiset;
use vstd::prelude::*;

use crate::game_object::components::{Direction, Position};
use crate::game_object::object_type::{ObjectType, OBJECT_TYPES};
use crate::level::{
    direction_rank, insertion_point, is_header, is_proper, lemma_loaded_is_proper, parse_level,
    parse_line, parse_lines, parse_positions, placement_le, placements_of, print_level,
    print_placements, print_position, print_section, print_sections, sorted, Dimensions,
    InitialPositionAndDirection, LevelView, Reader,
};
use crate::text::{
    all_digits, decimal, digit_char, digit_value, find, is_digit, is_whitespace, parse_i16,
    print_int, print_nat, trim,
};

verus! {

/// Whether `c` is a character of a name or a number: a letter, a digit or a
/// minus sign.
pub open spec fn is_plain_char(c: char) -> bool {
    let n = c as u32;
    ||| 48 <= n <= 57
    ||| 65 <= n <= 90
    ||| 97 <= n <= 122
    ||| n == 45
}

/// Whether `s` holds characters of names and numbers only.
pub open spec fn is_plain(s: Seq<char>) -> bool {
    forall|i: int| 0 <= i < s.len() ==> is_plain_char(#[trigger] s[i])
}

/// A search skips a front that does not hold what is searched for.
pub proof fn lemma_find_skips(front: Seq<char>, c: char, rest: Seq<char>)
    requires
        forall|i: int| 0 <= i < front.len() ==> front[i] != c,
    ensures
        find(front + rest, c) == front.len() + find(rest, c),
    decreases front.len(),
{
    if front.len() == 0 {
        assert(front + rest =~= rest);
    } else {
        assert((front + rest).drop_first() =~= front.drop_first() + rest);
        lemma_find_skips(front.drop_first(), c, rest);
    }
}

/// A search in a text that does not hold what is searched for ends at the
/// end of the text.
pub proof fn lemma_find_none(s: Seq<char>, c: char)
    requires
        forall|i: int| 0 <= i < s.len() ==> s[i] != c,
    ensures
        find(s, c) == s.len(),
{
    lemma_find_skips(s, c, Seq::empty());
    assert(s + Seq::<char>::empty() =~= s);
}

/// A search finds the first separator behind a front that holds none.
pub proof fn lemma_find_first(front: Seq<char>, c: char, rest: Seq<char>)
    requires
        forall|i: int| 0 <= i < front.len() ==> front[i] != c,
    ensures
        find(front + seq![c] + rest, c) == front.len(),
        (front + seq![c] + rest).subrange(0, front.len() as int) == front,
        (front + seq![c] + rest).subrange(
            front.len() as int + 1,
            (front + seq![c] + rest).len() as int,
        ) == rest,
{
    lemma_find_skips(front, c, seq![c] + rest);
    assert(front + seq![c] + rest =~= front + (seq![c] + rest));
    assert((front + seq![c] + rest).subrange(0, front.len() as int) =~= front);
    assert((front + seq![c] + rest).subrange(
        front.len() as int + 1,
        (front + seq![c] + rest).len() as int,
    ) =~= rest);
}

/// Trimming leaves a text alone that neither starts nor ends with white
/// space.
pub proof fn lemma_trim_nothing(s: Seq<char>)
    requires
        s.len() > 0 ==> !is_whitespace(s[0]) && !is_whitespace(s.last()),
    ensures
        trim(s) == s,
{
}

/// The digits that are written for a number denote it.
pub proof fn lemma_print_nat(n: nat)
    ensures
        print_nat(n).len() > 0,
        all_digits(print_nat(n)),
        is_plain(print_nat(n)),
        decimal(print_nat(n)) == n,
    decreases n,
{
    if n < 10 {
        let s = print_nat(n);
        assert(s.drop_last() =~= Seq::<char>::empty());
        assert(decimal(s.drop_last()) == 0);
    } else {
        lemma_print_nat(n / 10);
        let s = print_nat(n);
        assert(s.drop_last() =~= print_nat(n / 10));
        assert(digit_value(digit_char((n % 10) as int)) == n % 10);
    }
}

/// A number that is written is read back, and it is written in characters
/// of names and numbers.
pub proof fn lemma_number_round_trip(v: i16)
    ensures
        parse_i16(print_int(v as int)) == Some(v),
        is_plain(print_int(v as int)),
        print_int(v as int).len() > 0,
{
    let s = print_int(v as int);
    if v < 0 {
        lemma_print_nat((-v) as nat);
        assert(s.drop_first() =~= print_nat((-v) as nat));
        assert(s[0] == '-');
    } else {
        lemma_print_nat(v as nat);
        assert(is_digit(s[0]));
    }
}

/// Whether `s` can stand as a line of its own: it holds no line feed and
/// neither starts nor ends with white space.
pub open spec fn is_line(s: Seq<char>) -> bool {
    &&& forall|i: int| 0 <= i < s.len() ==> s[i] != '\n'
    &&& s.len() > 0 ==> !is_whitespace(s[0]) && !is_whitespace(s.last())
}

/// Reading text that starts with a line is reading the line, then the rest.
pub proof fn lemma_read_line(line: Seq<char>, rest: Seq<char>, reader: Reader)
    requires
        is_line(line),
    ensures
        parse_lines(line + seq!['\n'] + rest, reader) == parse_lines(
            rest,
            parse_line(reader, line),
        ),
{
    lemma_find_first(line, '\n', rest);
    lemma_trim_nothing(line);
}

/// Reading no text leaves the reader as it is.
pub proof fn lemma_read_nothing(reader: Reader)
    ensures
        parse_lines(Seq::empty(), reader) == reader,
{
    let nothing = Seq::<char>::empty();
    assert(nothing.subrange(0, 0) =~= nothing);
    lemma_trim_nothing(nothing);
}

/// A blank line leaves the reader as it is.
pub proof fn lemma_blank_line(rest: Seq<char>, reader: Reader)
    ensures
        parse_lines(seq!['\n'] + rest, reader) == parse_lines(rest, reader),
{
    let nothing = Seq::<char>::empty();
    lemma_read_line(nothing, rest, reader);
    assert(nothing + seq!['\n'] + rest =~= seq!['\n'] + rest);
}

/// A header opens the section that it names and forgets the direction.
pub proof fn lemma_header_line(name: Seq<char>, reader: Reader)
    requires
        is_plain(name),
    ensures
        is_line(seq!['['] + name + seq![']']),
        parse_line(reader, seq!['['] + name + seq![']']) == (Reader {
            section: Some(name),
            direction: None,
            ..reader
        }),
{
    let line = seq!['['] + name + seq![']'];
    assert(line.subrange(1, line.len() - 1) =~= name);
    assert forall|i: int| 0 <= i < line.len() implies line[i] != '\n' by {
        if 1 <= i < line.len() - 1 {
            assert(line[i] == name[i - 1]);
        }
    }
}

/// A `key=value` line is a line, it is no header, and it splits at its
/// first equals sign into the key and the value.
pub proof fn lemma_key_value_line(key: Seq<char>, value: Seq<char>)
    requires
        is_plain(key),
        key.len() > 0,
        value.len() > 0,
        forall|i: int| 0 <= i < value.len() ==> is_plain_char(#[trigger] value[i]) || value[i] == ',',
        is_plain_char(value.last()),
    ensures
        is_line(key + seq!['='] + value),
        !is_header(key + seq!['='] + value),
        find(key + seq!['='] + value, '=') == key.len(),
        (key + seq!['='] + value).subrange(0, key.len() as int) == key,
        (key + seq!['='] + value).subrange(
            key.len() as int + 1,
            (key + seq!['='] + value).len() as int,
        ) == value,
{
    let line = key + seq!['='] + value;
    assert(forall|i: int| 0 <= i < key.len() ==> is_plain_char(#[trigger] key[i]));
    lemma_find_first(key, '=', value);
    assert(line[0] == key[0]);
    assert(line.last() == value.last());
    assert forall|i: int| 0 <= i < line.len() implies line[i] != '\n' by {
        if i < key.len() {
            assert(line[i] == key[i]);
        } else if i > key.len() {
            assert(line[i] == value[i - key.len() - 1]);
        }
    }
}

/// The names of the directions are words, and each direction is read back
/// from its name.
pub proof fn lemma_direction_name(direction: Direction)
    ensures
        is_plain(direction.spec_name()),
        direction.spec_name().len() > 0,
        Direction::spec_from_name(direction.spec_name()) == Some(direction),
{
    reveal_strlit("Up");
    reveal_strlit("Right");
    reveal_strlit("Down");
    reveal_strlit("Left");
    assert("Up"@.len() == 2 && "Right"@.len() == 5 && "Down"@.len() == 4 && "Left"@.len() == 4);
    assert("Down"@[0] == 'D' && "Left"@[0] == 'L');
}

/// The names of the object types are words.
pub proof fn lemma_type_name(object_type: ObjectType)
    ensures
        is_plain(object_type.spec_name()),
{
    reveal_strlit("BlueBlock");
    reveal_strlit("BouncingBall");
    reveal_strlit("Button");
    reveal_strlit("Creature1");
    reveal_strlit("Exit");
    reveal_strlit("Gate");
    reveal_strlit("Mine");
    reveal_strlit("Player");
    reveal_strlit("PurpleBlock");
    reveal_strlit("Raft");
    reveal_strlit("RedBlock");
    reveal_strlit("Transporter");
    reveal_strlit("Water");
    reveal_strlit("YellowBlock");
}

/// The words of the format are words, and no two of them are the same.
pub proof fn lemma_keywords()
    ensures
        is_plain("General"@),
        is_plain("Width"@),
        is_plain("Height"@),
        is_plain("Position"@),
        is_plain("Direction"@),
        "Width"@.len() > 0,
        "Height"@.len() > 0,
        "Position"@.len() > 0,
        "Direction"@.len() > 0,
        "Width"@ != "Height"@,
        "Position"@ != "Direction"@,
{
    reveal_strlit("General");
    reveal_strlit("Width");
    reveal_strlit("Height");
    reveal_strlit("Position");
    reveal_strlit("Direction");
    assert("Width"@.len() == 5 && "Height"@.len() == 6);
    assert("Position"@.len() == 8 && "Direction"@.len() == 9);
}

/// The value of a position line.
pub open spec fn location_text(position: Position) -> Seq<char> {
    print_int(position.x as int) + seq![','] + print_int(position.y as int)
}

/// The value of a position line is read as the one position it was written
/// for, with the direction that the reader is in.
pub proof fn lemma_location(position: Position, direction: Option<Direction>)
    requires
        position.x >= 1,
        position.y >= 1,
    ensures
        location_text(position).len() > 0,
        forall|i: int|
            0 <= i < location_text(position).len() ==> is_plain_char(
                #[trigger] location_text(position)[i],
            ) || location_text(position)[i] == ',',
        is_plain_char(location_text(position).last()),
        parse_positions(location_text(position), direction) == seq![
            InitialPositionAndDirection { position, direction },
        ],
{
    let x = print_int(position.x as int);
    let y = print_int(position.y as int);
    let value = location_text(position);
    lemma_number_round_trip(position.x);
    lemma_number_round_trip(position.y);
    assert(forall|i: int| 0 <= i < x.len() ==> is_plain_char(#[trigger] x[i]));
    assert(forall|i: int| 0 <= i < y.len() ==> is_plain_char(#[trigger] y[i]));
    assert forall|i: int| 0 <= i < value.len() implies is_plain_char(#[trigger] value[i])
        || value[i] == ',' by {
        if i < x.len() {
            assert(value[i] == x[i]);
        } else if i > x.len() {
            assert(value[i] == y[i - x.len() - 1]);
        }
    }
    assert(value.last() == y.last());
    lemma_find_none(value, ';');
    assert(value.subrange(0, value.len() as int) =~= value);
    lemma_find_first(x, ',', y);
}

/// A position line in the section of an object type adds one object of the
/// type, with the direction that the reader is in.
pub proof fn lemma_position_line(
    position: Position,
    rest: Seq<char>,
    reader: Reader,
    object_type: ObjectType,
)
    requires
        reader.section == Some(object_type.spec_name()),
        position.x >= 1,
        position.y >= 1,
    ensures
        parse_lines(print_position(position) + rest, reader) == parse_lines(
            rest,
            Reader {
                level: LevelView {
                    objects: reader.level.objects.insert(
                        object_type,
                        placements_of(reader.level.objects, object_type).push(
                            InitialPositionAndDirection { position, direction: reader.direction },
                        ),
                    ),
                    ..reader.level
                },
                ..reader
            },
        ),
{
    let key = "Position"@;
    let value = location_text(position);
    let line = key + seq!['='] + value;
    reveal_strlit("Position=");
    reveal_strlit("Position");
    reveal_strlit(",");
    reveal_strlit("\n");
    assert("Position="@ =~= key + seq!['=']);
    assert(","@ =~= seq![',']);
    assert("\n"@ =~= seq!['\n']);
    assert(print_position(position) + rest =~= line + seq!['\n'] + rest);
    lemma_keywords();
    lemma_location(position, reader.direction);
    lemma_key_value_line(key, value);
    lemma_read_line(line, rest, reader);
    object_type.lemma_name_round_trip();
    let placement = InitialPositionAndDirection { position, direction: reader.direction };
    let before = placements_of(reader.level.objects, object_type);
    assert(before + seq![placement] =~= before.push(placement));
}

/// A direction line in the section of an object type sets the direction of
/// the reader.
pub proof fn lemma_direction_line(
    direction: Direction,
    rest: Seq<char>,
    reader: Reader,
    object_type: ObjectType,
)
    requires
        reader.section == Some(object_type.spec_name()),
    ensures
        parse_lines("Direction="@ + direction.spec_name() + "\n"@ + rest, reader) == parse_lines(
            rest,
            Reader { direction: Some(direction), ..reader },
        ),
{
    let key = "Direction"@;
    let value = direction.spec_name();
    let line = key + seq!['='] + value;
    reveal_strlit("Direction=");
    reveal_strlit("Direction");
    reveal_strlit("\n");
    assert("Direction="@ =~= key + seq!['=']);
    assert("\n"@ =~= seq!['\n']);
    assert("Direction="@ + direction.spec_name() + "\n"@ + rest =~= line + seq!['\n'] + rest);
    lemma_keywords();
    lemma_direction_name(direction);
    assert(forall|i: int| 0 <= i < value.len() ==> is_plain_char(#[trigger] value[i]));
    lemma_key_value_line(key, value);
    lemma_read_line(line, rest, reader);
    object_type.lemma_name_round_trip();
}

/// A width or height line in the general section sets the width or the
/// height.
pub proof fn lemma_general_line(wide: bool, number: i16, rest: Seq<char>, reader: Reader)
    requires
        reader.section == Some("General"@),
        number >= 1,
    ensures
        wide ==> parse_lines("Width="@ + print_int(number as int) + "\n"@ + rest, reader)
            == parse_lines(
            rest,
            Reader {
                level: LevelView {
                    dimensions: Dimensions { width: number, ..reader.level.dimensions },
                    ..reader.level
                },
                ..reader
            },
        ),
        !wide ==> parse_lines("Height="@ + print_int(number as int) + "\n"@ + rest, reader)
            == parse_lines(
            rest,
            Reader {
                level: LevelView {
                    dimensions: Dimensions { height: number, ..reader.level.dimensions },
                    ..reader.level
                },
                ..reader
            },
        ),
{
    let key = if wide {
        "Width"@
    } else {
        "Height"@
    };
    let value = print_int(number as int);
    let line = key + seq!['='] + value;
    reveal_strlit("Width=");
    reveal_strlit("Width");
    reveal_strlit("Height=");
    reveal_strlit("Height");
    reveal_strlit("\n");
    assert("Width="@ =~= "Width"@ + seq!['=']);
    assert("Height="@ =~= "Height"@ + seq!['=']);
    assert("\n"@ =~= seq!['\n']);
    if wide {
        assert("Width="@ + value + "\n"@ + rest =~= line + seq!['\n'] + rest);
    } else {
        assert("Height="@ + value + "\n"@ + rest =~= line + seq!['\n'] + rest);
    }
    lemma_keywords();
    lemma_number_round_trip(number);
    assert(forall|i: int| 0 <= i < value.len() ==> is_plain_char(#[trigger] value[i]));
    lemma_key_value_line(key, value);
    lemma_read_line(line, rest, reader);
}

/// Whether the objects of `s` stand on cells numbered from 1.
pub open spec fn all_positive(s: Seq<InitialPositionAndDirection>) -> bool {
    forall|i: int|
        0 <= i < s.len() ==> (#[trigger] s[i]).position.x >= 1 && s[i].position.y >= 1
}

/// Sorting objects on cells numbered from 1 leaves them on such cells.
pub proof fn lemma_sorted_positive(s: Seq<InitialPositionAndDirection>)
    requires
        all_positive(s),
    ensures
        all_positive(sorted(s)),
    decreases s.len(),
{
    if s.len() > 0 {
        let front = sorted(s.drop_last());
        let k = insertion_point(front, s.last());
        assert forall|i: int| 0 <= i < s.drop_last().len() implies (
        #[trigger] s.drop_last()[i]).position.x >= 1 && s.drop_last()[i].position.y >= 1 by {
            assert(s.drop_last()[i] == s[i]);
        }
        lemma_sorted_positive(s.drop_last());
        lemma_insertion_point(front, s.last());
        let all = front.insert(k, s.last());
        assert(s.last().position.x >= 1 && s.last().position.y >= 1);
        assert forall|i: int| 0 <= i < all.len() implies (#[trigger] all[i]).position.x >= 1
            && all[i].position.y >= 1 by {
            if i < k {
                assert(all[i] == front[i]);
            } else if i > k {
                assert(all[i] == front[i - 1]);
            }
        }
    }
}

/// The direction that a writer or reader is in: the one set last, or up.
pub open spec fn current(direction: Option<Direction>) -> Direction {
    match direction {
        Some(d) => d,
        None => Direction::Up,
    }
}

/// The direction that the reader is in after the lines of `placement`, for a
/// reader that was in `direction`.
pub open spec fn next_direction(
    placement: InitialPositionAndDirection,
    direction: Option<Direction>,
) -> Option<Direction> {
    match placement.direction {
        Some(d) if d != current(direction) => Some(d),
        _ => direction,
    }
}

/// The objects as they are read back from the lines written for `s`, by a
/// reader that is in `direction`.
pub open spec fn read_back(
    s: Seq<InitialPositionAndDirection>,
    direction: Option<Direction>,
) -> Seq<InitialPositionAndDirection>
    decreases s.len(),
{
    if s.len() == 0 {
        Seq::empty()
    } else {
        let next = next_direction(s[0], direction);
        seq![InitialPositionAndDirection { position: s[0].position, direction: next }]
            + read_back(s.drop_first(), next)
    }
}

/// The direction that the reader is in after the lines written for `s`.
pub open spec fn last_direction(
    s: Seq<InitialPositionAndDirection>,
    direction: Option<Direction>,
) -> Option<Direction>
    decreases s.len(),
{
    if s.len() == 0 {
        direction
    } else {
        last_direction(s.drop_first(), next_direction(s[0], direction))
    }
}

/// The objects of a level after objects of type `object_type` were added.
pub open spec fn with_added(
    objects: Map<ObjectType, Seq<InitialPositionAndDirection>>,
    object_type: ObjectType,
    added: Seq<InitialPositionAndDirection>,
) -> Map<ObjectType, Seq<InitialPositionAndDirection>> {
    if added.len() > 0 {
        objects.insert(object_type, placements_of(objects, object_type) + added)
    } else {
        objects
    }
}

/// The lines written for the objects of a section are read back as those
/// objects, each with the direction that the reader is in when it comes to
/// it.
pub proof fn lemma_read_placements(
    s: Seq<InitialPositionAndDirection>,
    rest: Seq<char>,
    reader: Reader,
    object_type: ObjectType,
)
    requires
        reader.section == Some(object_type.spec_name()),
        all_positive(s),
    ensures
        parse_lines(print_placements(s, current(reader.direction)) + rest, reader)
            == parse_lines(
            rest,
            Reader {
                level: LevelView {
                    objects: with_added(
                        reader.level.objects,
                        object_type,
                        read_back(s, reader.direction),
                    ),
                    ..reader.level
                },
                direction: last_direction(s, reader.direction),
                ..reader
            },
        ),
    decreases s.len(),
{
    if s.len() == 0 {
        assert(print_placements(s, current(reader.direction)) + rest =~= rest);
    } else {
        let now = current(reader.direction);
        let next = next_direction(s[0], reader.direction);
        let tail = s.drop_first();
        assert(s[0].position.x >= 1 && s[0].position.y >= 1);
        assert forall|i: int| 0 <= i < tail.len() implies (#[trigger] tail[i]).position.x >= 1
            && tail[i].position.y >= 1 by {
            assert(tail[i] == s[i + 1]);
        }
        let placement = InitialPositionAndDirection { position: s[0].position, direction: next };
        let turned = Reader { direction: next, ..reader };
        let before = placements_of(reader.level.objects, object_type);
        let added = Reader {
            level: LevelView {
                objects: reader.level.objects.insert(object_type, before.push(placement)),
                ..reader.level
            },
            ..turned
        };
        let after = print_placements(tail, current(next)) + rest;
        if s[0].direction is Some && s[0].direction->0 != now {
            let d = s[0].direction->0;
            assert(print_placements(s, now) + rest =~= "Direction="@ + d.spec_name() + "\n"@ + (
            print_position(s[0].position) + after));
            lemma_direction_line(d, print_position(s[0].position) + after, reader, object_type);
        } else {
            assert(print_placements(s, now) + rest =~= print_position(s[0].position) + after);
            assert(turned == reader);
        }
        lemma_position_line(s[0].position, after, turned, object_type);
        lemma_read_placements(tail, rest, added, object_type);
        let back = read_back(tail, next);
        assert(read_back(s, reader.direction) =~= seq![placement] + back);
        assert(placements_of(added.level.objects, object_type) == before.push(placement));
        if tail.len() > 0 {
            assert(before.push(placement) + back =~= before + (seq![placement] + back));
            assert(with_added(added.level.objects, object_type, back) =~= with_added(
                reader.level.objects,
                object_type,
                read_back(s, reader.direction),
            ));
        } else {
            assert(before.push(placement) =~= before + (seq![placement] + back));
        }
    }
}

/// The object as it is read back from a section in order: an object that
/// was said to face up is read back without a direction, which means the
/// same.
pub open spec fn canonical(placement: InitialPositionAndDirection) -> InitialPositionAndDirection {
    InitialPositionAndDirection {
        direction: if placement.direction == Some(Direction::Up) {
            None
        } else {
            placement.direction
        },
        ..placement
    }
}

/// Each object of `s` as it is read back from a section in order.
pub open spec fn canonical_all(s: Seq<InitialPositionAndDirection>) -> Seq<
    InitialPositionAndDirection,
> {
    Seq::new(s.len(), |i: int| canonical(s[i]))
}

/// Whether the directions of `s` come in the order in which a section lists
/// them.
pub open spec fn directions_ordered(s: Seq<InitialPositionAndDirection>) -> bool {
    forall|i: int, j: int|
        0 <= i < j < s.len() ==> direction_rank(#[trigger] s[i].direction) <= direction_rank(
            #[trigger] s[j].direction,
        )
}

/// Objects whose directions come in order are read back as themselves, up
/// to the direction up, by a reader that is in no direction, or in a
/// direction other than up that none of them comes before.
pub proof fn lemma_read_back_ordered(
    s: Seq<InitialPositionAndDirection>,
    direction: Option<Direction>,
)
    requires
        directions_ordered(s),
        direction matches Some(d) ==> d != Direction::Up && forall|i: int|
            0 <= i < s.len() ==> direction_rank(direction) <= direction_rank(
                #[trigger] s[i].direction,
            ),
    ensures
        read_back(s, direction) == canonical_all(s),
    decreases s.len(),
{
    if s.len() == 0 {
        assert(read_back(s, direction) =~= canonical_all(s));
    } else {
        let next = next_direction(s[0], direction);
        let tail = s.drop_first();
        assert(direction_rank(direction) <= direction_rank(s[0].direction) || direction is None);
        assert forall|i: int, j: int| 0 <= i < j < tail.len() implies direction_rank(
            #[trigger] tail[i].direction,
        ) <= direction_rank(#[trigger] tail[j].direction) by {
            assert(tail[i] == s[i + 1] && tail[j] == s[j + 1]);
        }
        assert forall|i: int| 0 <= i < tail.len() implies direction_rank(s[0].direction)
            <= direction_rank(#[trigger] tail[i].direction) by {
            assert(tail[i] == s[i + 1]);
        }
        lemma_read_back_ordered(tail, next);
        assert(read_back(s, direction) =~= canonical_all(s)) by {
            assert(canonical_all(s)[0] == canonical(s[0]));
            assert forall|i: int| 1 <= i < s.len() implies canonical_all(s)[i] == canonical_all(
                tail,
            )[i - 1] by {
                assert(tail[i - 1] == s[i]);
            }
        }
    }
}

/// Where an object goes into an ordered sequence: behind an object that
/// does not come after it, and before those that do.
pub proof fn lemma_insertion_point(
    s: Seq<InitialPositionAndDirection>,
    p: InitialPositionAndDirection,
)
    ensures
        0 <= insertion_point(s, p) <= s.len(),
        insertion_point(s, p) > 0 ==> placement_le(s[insertion_point(s, p) - 1], p),
        forall|j: int| insertion_point(s, p) <= j < s.len() ==> !placement_le(#[trigger] s[j], p),
    decreases s.len(),
{
    if s.len() > 0 && !placement_le(s.last(), p) {
        lemma_insertion_point(s.drop_last(), p);
        let k = insertion_point(s.drop_last(), p);
        assert forall|j: int| k <= j < s.len() implies !placement_le(#[trigger] s[j], p) by {
            if j < s.len() - 1 {
                assert(s.drop_last()[j] == s[j]);
            }
        }
        if k > 0 {
            assert(s.drop_last()[k - 1] == s[k - 1]);
        }
    }
}

/// Sorting keeps the number of objects and puts their directions in order.
pub proof fn lemma_sorted_ordered(s: Seq<InitialPositionAndDirection>)
    ensures
        sorted(s).len() == s.len(),
        directions_ordered(sorted(s)),
    decreases s.len(),
{
    if s.len() > 0 {
        let front = sorted(s.drop_last());
        let p = s.last();
        let k = insertion_point(front, p);
        lemma_sorted_ordered(s.drop_last());
        lemma_insertion_point(front, p);
        let all = front.insert(k, p);
        assert forall|i: int, j: int| 0 <= i < j < all.len() implies direction_rank(
            #[trigger] all[i].direction,
        ) <= direction_rank(#[trigger] all[j].direction) by {
            if k > 0 {
                assert(placement_le(front[k - 1], p));
            }
            if i < k && j == k {
                if i < k - 1 {
                    assert(direction_rank(front[i].direction) <= direction_rank(
                        front[k - 1].direction,
                    ));
                }
            } else if i < k && j > k {
                assert(all[i] == front[i] && all[j] == front[j - 1]);
            } else if i == k {
                assert(all[j] == front[j - 1]);
                assert(!placement_le(front[j - 1], p));
            } else if i > k {
                assert(all[i] == front[i - 1] && all[j] == front[j - 1]);
            } else {
                assert(all[i] == front[i] && all[j] == front[j]);
            }
        }
    }
}

/// The objects of a level as they are read back from its text, for the
/// object types before position `k`: every type that has objects, with its
/// objects in the order of the section.
pub open spec fn reread_upto(
    objects: Map<ObjectType, Seq<InitialPositionAndDirection>>,
    k: usize,
) -> Map<ObjectType, Seq<InitialPositionAndDirection>> {
    Map::new(
        |t: ObjectType| t.spec_index() < k && objects.contains_key(t) && objects[t].len() > 0,
        |t: ObjectType| canonical_all(sorted(objects[t])),
    )
}

/// The objects of a level as they are read back from its text.
pub open spec fn reread(objects: Map<ObjectType, Seq<InitialPositionAndDirection>>) -> Map<
    ObjectType,
    Seq<InitialPositionAndDirection>,
> {
    reread_upto(objects, OBJECT_TYPES)
}

/// The section written for an object type is read back as the objects of
/// the type in the order of the section, added to those that the reader
/// holds of the type.
pub proof fn lemma_read_section(
    object_type: ObjectType,
    placements: Seq<InitialPositionAndDirection>,
    rest: Seq<char>,
    reader: Reader,
)
    requires
        all_positive(placements),
    ensures
        exists|direction: Option<Direction>|
            parse_lines(print_section(object_type, placements) + rest, reader) == parse_lines(
                rest,
                #[trigger] section_read(reader, object_type, placements, direction),
            ),
{
    let name = object_type.spec_name();
    let header = seq!['['] + name + seq![']'];
    let lines = print_placements(sorted(placements), Direction::Up);
    let opened = Reader { section: Some(name), direction: None, ..reader };
    let direction = last_direction(sorted(placements), None);
    assert(print_section(object_type, placements) + rest =~= seq!['\n'] + (header + seq!['\n']
        + (lines + rest))) by {
        reveal_strlit("\n[");
        reveal_strlit("]\n");
        assert("\n["@ =~= seq!['\n', '[']);
        assert("]\n"@ =~= seq![']', '\n']);
    }
    lemma_blank_line(header + seq!['\n'] + (lines + rest), reader);
    lemma_type_name(object_type);
    lemma_header_line(name, reader);
    lemma_read_line(header, lines + rest, reader);
    lemma_sorted_positive(placements);
    lemma_read_placements(sorted(placements), rest, opened, object_type);
    lemma_sorted_ordered(placements);
    lemma_read_back_ordered(sorted(placements), None);
    assert(parse_lines(print_section(object_type, placements) + rest, reader) == parse_lines(
        rest,
        section_read(reader, object_type, placements, direction),
    ));
}

/// The reader after the section of an object type, where `direction` is the
/// direction that the section leaves it in.
pub open spec fn section_read(
    reader: Reader,
    object_type: ObjectType,
    placements: Seq<InitialPositionAndDirection>,
    direction: Option<Direction>,
) -> Reader {
    Reader {
        level: LevelView {
            objects: with_added(
                reader.level.objects,
                object_type,
                canonical_all(sorted(placements)),
            ),
            ..reader.level
        },
        section: Some(object_type.spec_name()),
        direction,
    }
}

/// Adding the section of the object type at position `k` to what was read
/// of the types before it gives what is read of the types up to it.
pub proof fn lemma_reread_next(
    objects: Map<ObjectType, Seq<InitialPositionAndDirection>>,
    k: usize,
)
    requires
        k < OBJECT_TYPES,
    ensures
        ({
            let object_type = ObjectType::spec_from_index(k);
            let next = (k + 1) as usize;
            if objects.contains_key(object_type) {
                with_added(
                    reread_upto(objects, k),
                    object_type,
                    canonical_all(sorted(objects[object_type])),
                ) == reread_upto(objects, next)
            } else {
                reread_upto(objects, k) == reread_upto(objects, next)
            }
        }),
{
    let object_type = ObjectType::spec_from_index(k);
    let next = (k + 1) as usize;
    assert(object_type.spec_index() == k);
    assert forall|t: ObjectType| t.spec_index() == k implies t == object_type by {
        ObjectType::lemma_index_identifies(t, object_type);
    }
    if objects.contains_key(object_type) {
        let read = canonical_all(sorted(objects[object_type]));
        lemma_sorted_ordered(objects[object_type]);
        assert(placements_of(reread_upto(objects, k), object_type) =~= Seq::empty());
        assert(Seq::<InitialPositionAndDirection>::empty() + read =~= read);
        assert(with_added(reread_upto(objects, k), object_type, read) =~= reread_upto(
            objects,
            next,
        ));
    } else {
        assert(reread_upto(objects, k) =~= reread_upto(objects, next));
    }
}

/// The sections written for the object types from position `k` on are read
/// back as the objects of those types.
pub proof fn lemma_read_sections(
    objects: Map<ObjectType, Seq<InitialPositionAndDirection>>,
    k: usize,
    reader: Reader,
)
    requires
        k <= OBJECT_TYPES,
        reader.level.objects == reread_upto(objects, k),
        forall|t: ObjectType| objects.contains_key(t) ==> all_positive(#[trigger] objects[t]),
    ensures
        parse_lines(print_sections(objects, k), reader).level == (LevelView {
            dimensions: reader.level.dimensions,
            objects: reread(objects),
        }),
    decreases OBJECT_TYPES - k,
{
    if k >= OBJECT_TYPES {
        lemma_read_nothing(reader);
    } else {
        let object_type = ObjectType::spec_from_index(k);
        let next = (k + 1) as usize;
        let rest = print_sections(objects, next);
        lemma_reread_next(objects, k);
        if objects.contains_key(object_type) {
            let placements = objects[object_type];
            lemma_read_section(object_type, placements, rest, reader);
            let direction = choose|direction: Option<Direction>|
                parse_lines(print_section(object_type, placements) + rest, reader)
                    == parse_lines(
                    rest,
                    #[trigger] section_read(reader, object_type, placements, direction),
                );
            let filled = section_read(reader, object_type, placements, direction);
            lemma_read_sections(objects, next, filled);
        } else {
            assert(print_sections(objects, k) =~= rest);
            lemma_read_sections(objects, next, reader);
        }
    }
}

/// The text of a level is read back as the level: the same dimensions, and
/// of every object type that has objects the same objects, in the order of
/// the section. An object that was said to face up comes back without a
/// direction, which means the same.
pub proof fn lemma_round_trip(level: LevelView)
    requires
        is_proper(level),
    ensures
        parse_level(print_level(level)) == (LevelView {
            dimensions: level.dimensions,
            objects: reread(level.objects),
        }),
{
    let width = print_int(level.dimensions.width as int);
    let height = print_int(level.dimensions.height as int);
    let sections = print_sections(level.objects, 0);
    let header = seq!['['] + "General"@ + seq![']'];
    let start = Reader {
        level: LevelView {
            dimensions: Dimensions { width: 16, height: 16 },
            objects: Map::empty(),
        },
        section: None,
        direction: None,
    };
    reveal_strlit("[General]\nWidth=");
    reveal_strlit("General");
    reveal_strlit("Width=");
    reveal_strlit("\nHeight=");
    reveal_strlit("Height=");
    reveal_strlit("\n");
    assert("[General]\nWidth="@ =~= header + seq!['\n'] + "Width="@);
    assert("\nHeight="@ =~= "\n"@ + "Height="@);
    let second = "Height="@ + height + "\n"@ + sections;
    let first = "Width="@ + width + "\n"@ + second;
    assert(print_level(level) =~= header + seq!['\n'] + first);
    lemma_keywords();
    lemma_header_line("General"@, start);
    lemma_read_line(header, first, start);
    let opened = Reader { section: Some("General"@), direction: None, ..start };
    lemma_general_line(true, level.dimensions.width, second, opened);
    let wide = Reader {
        level: LevelView {
            dimensions: Dimensions { width: level.dimensions.width, height: 16 },
            ..opened.level
        },
        ..opened
    };
    lemma_general_line(false, level.dimensions.height, sections, wide);
    let sized = Reader {
        level: LevelView { dimensions: level.dimensions, ..wide.level },
        ..wide
    };
    assert(sized.level.objects =~= reread_upto(level.objects, 0));
    assert forall|t: ObjectType| level.objects.contains_key(t) implies all_positive(
        #[trigger] level.objects[t],
    ) by {
        assert forall|i: int| 0 <= i < level.objects[t].len() implies (
        #[trigger] level.objects[t][i]).position.x >= 1 && level.objects[t][i].position.y
            >= 1 by {}
    }
    lemma_read_sections(level.objects, 0, sized);
}

/// Where an object of a level stands and which way it faces: the way it was
/// given, or up.
pub open spec fn stands(placement: InitialPositionAndDirection) -> (Position, Direction) {
    (placement.position, current(placement.direction))
}

/// Where the objects of `s` stand and face, in no order.
pub open spec fn placed(s: Seq<InitialPositionAndDirection>) -> Multiset<(Position, Direction)>
    decreases s.len(),
{
    if s.len() == 0 {
        Multiset::empty()
    } else {
        placed(s.drop_last()).insert(stands(s.last()))
    }
}

/// An object that goes into a sequence goes among those that are placed.
pub proof fn lemma_placed_insert(
    s: Seq<InitialPositionAndDirection>,
    k: int,
    p: InitialPositionAndDirection,
)
    requires
        0 <= k <= s.len(),
    ensures
        placed(s.insert(k, p)) == placed(s).insert(stands(p)),
    decreases s.len(),
{
    let all = s.insert(k, p);
    if k == s.len() {
        assert(all.drop_last() =~= s);
    } else {
        assert(all.drop_last() =~= s.drop_last().insert(k, p));
        assert(all.last() == s.last());
        lemma_placed_insert(s.drop_last(), k, p);
        assert(placed(s.drop_last()).insert(stands(p)).insert(stands(s.last())) =~= placed(
            s.drop_last(),
        ).insert(stands(s.last())).insert(stands(p)));
    }
}

/// Sorting and reading back change neither where objects stand nor which
/// way they face.
pub proof fn lemma_placed_reread(s: Seq<InitialPositionAndDirection>)
    ensures
        sorted(s).len() == s.len(),
        placed(sorted(s)) == placed(s),
        placed(canonical_all(s)) == placed(s),
    decreases s.len(),
{
    if s.len() > 0 {
        let front = sorted(s.drop_last());
        lemma_placed_reread(s.drop_last());
        lemma_insertion_point(front, s.last());
        lemma_placed_insert(front, insertion_point(front, s.last()), s.last());
        assert(canonical_all(s).drop_last() =~= canonical_all(s.drop_last()));
        assert(stands(canonical(s.last())) == stands(s.last()));
    } else {
        assert(canonical_all(s) =~= s);
    }
}

/// Saving a level and loading what was saved gives a level with the same
/// dimensions and, of every object type, objects that stand on the same
/// cells and face the same ways, each as often as before.
pub proof fn lemma_save_load_keeps_level(level: LevelView)
    requires
        is_proper(level),
    ensures
        parse_level(print_level(level)).dimensions == level.dimensions,
        forall|t: ObjectType|
            placed(#[trigger] placements_of(parse_level(print_level(level)).objects, t))
                == placed(placements_of(level.objects, t)),
{
    lemma_round_trip(level);
    let again = parse_level(print_level(level)).objects;
    assert forall|t: ObjectType| placed(#[trigger] placements_of(again, t)) == placed(
        placements_of(level.objects, t),
    ) by {
        if level.objects.contains_key(t) && level.objects[t].len() > 0 {
            t.lemma_index_in_range();
            lemma_placed_reread(level.objects[t]);
            lemma_placed_reread(sorted(level.objects[t]));
        } else {
            assert(!again.contains_key(t));
            assert(placements_of(level.objects, t) =~= Seq::empty());
        }
    }
}

/// Sorting keeps the objects, each as often as before.
pub proof fn lemma_sorted_permutes(s: Seq<InitialPositionAndDirection>)
    ensures
        sorted(s).to_multiset() == s.to_multiset(),
    decreases s.len(),
{
    if s.len() > 0 {
        let front = sorted(s.drop_last());
        let p = s.last();
        let k = insertion_point(front, p);
        let all = front.insert(k, p);
        lemma_sorted_permutes(s.drop_last());
        lemma_insertion_point(front, p);
        all.to_multiset_ensures();
        s.drop_last().to_multiset_ensures();
        assert(all.remove(k) =~= front);
        assert(all[k] == p);
        assert(all.contains(p));
        assert(all.to_multiset() =~= front.to_multiset().insert(p));
        assert(s.drop_last().push(p) =~= s);
    }
}

/// Whether no object of the level was said to face up: each faces up by
/// saying nothing, or faces another way.
pub open spec fn says_no_up(level: LevelView) -> bool {
    forall|t: ObjectType, i: int|
        level.objects.contains_key(t) && 0 <= i < level.objects[t].len() ==> (
        #[trigger] level.objects[t][i]).direction != Some(Direction::Up)
}

/// Saving a level in which no object was said to face up, and loading what
/// was saved, gives a level with the same dimensions and, of every object
/// type, the same objects with the same directions, each as often as before.
pub proof fn lemma_save_load_keeps_directions(level: LevelView)
    requires
        is_proper(level),
        says_no_up(level),
    ensures
        parse_level(print_level(level)).dimensions == level.dimensions,
        forall|t: ObjectType|
            (#[trigger] placements_of(parse_level(print_level(level)).objects, t)).to_multiset()
                == placements_of(level.objects, t).to_multiset(),
{
    lemma_round_trip(level);
    let again = parse_level(print_level(level)).objects;
    assert forall|t: ObjectType| (#[trigger] placements_of(again, t)).to_multiset()
        == placements_of(level.objects, t).to_multiset() by {
        if level.objects.contains_key(t) && level.objects[t].len() > 0 {
            let given = level.objects[t];
            let ordered = sorted(given);
            t.lemma_index_in_range();
            lemma_sorted_ordered(given);
            lemma_sorted_permutes(given);
            ordered.to_multiset_ensures();
            given.to_multiset_ensures();
            assert forall|i: int| 0 <= i < ordered.len() implies canonical(ordered[i])
                == ordered[i] by {
                assert(ordered.contains(ordered[i]));
                assert(ordered.to_multiset().count(ordered[i]) > 0);
                assert(given.to_multiset().count(ordered[i]) > 0);
                assert(given.contains(ordered[i]));
                let j = choose|j: int| 0 <= j < given.len() && given[j] == ordered[i];
                assert(level.objects[t][j].direction != Some(Direction::Up));
            }
            assert(canonical_all(ordered) =~= ordered);
        } else {
            assert(!again.contains_key(t));
            assert(placements_of(level.objects, t) =~= Seq::empty());
        }
    }
}

/// Loading a text, saving the level and loading what was saved gives the
/// level that the text gave: the same dimensions and, of every object type,
/// objects that stand on the same cells and face the same ways, each as
/// often as before. This holds of every text.
pub proof fn lemma_load_save_load(content: Seq<char>)
    ensures
        ({
            let first = parse_level(content);
            let second = parse_level(print_level(first));
            &&& second.dimensions == first.dimensions
            &&& forall|t: ObjectType|
                placed(#[trigger] placements_of(second.objects, t)) == placed(
                    placements_of(first.objects, t),
                )
        }),
{
    lemma_loaded_is_proper(content);
    lemma_save_load_keeps_level(parse_level(content));
}

} // verus!
