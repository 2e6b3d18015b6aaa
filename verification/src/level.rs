//! Levels: the size of the grid and the objects it starts with.

use vstd::prelude::*;
use vstd::slice::*;
use vstd::string::*;

use crate::game_object::components::{Direction, Position};
use crate::game_object::object_type::{ObjectType, OBJECT_TYPES};
use crate::text::{
    find, is_word, parse_i16, parse_number, position_of, print_int, push_number, trim, trimmed,
    chars_of,
};

verus! {

/// The size of the grid. Cells are numbered from 1 on both axes.
#[derive(Clone, Copy, Debug, PartialEq, Eq, Structural)]
pub struct Dimensions {
    pub width: i16,
    pub height: i16,
}

impl Default for Dimensions {
    fn default() -> (d: Self)
        ensures
            d == (Dimensions { width: 16, height: 16 }),
    {
        Self { width: 16, height: 16 }
    }
}

impl Dimensions {
    /// Whether the cell `(x, y)` lies on the grid.
    pub open spec fn contains(self, x: int, y: int) -> bool {
        1 <= x <= self.width && 1 <= y <= self.height
    }

    /// Whether the cell `(x, y)` lies on the grid.
    pub fn holds(&self, x: i32, y: i32) -> (r: bool)
        ensures
            r == self.contains(x as int, y as int),
    {
        1 <= x && x <= self.width as i32 && 1 <= y && y <= self.height as i32
    }

    /// The width or height that results from adding `delta` to `side`: the
    /// sum where it is a positive 16-bit number, `side` itself otherwise.
    pub open spec fn resized(side: i16, delta: i16) -> i16 {
        if 0 < side + delta <= i16::MAX {
            (side + delta) as i16
        } else {
            side
        }
    }

    /// Changes the width by `delta`, unless that would leave no column.
    pub fn change_width(&mut self, delta: i16)
        ensures
            final(self).width == Self::resized(old(self).width, delta),
            final(self).height == old(self).height,
    {
        let sum: i32 = self.width as i32 + delta as i32;
        if 0 < sum && sum <= i16::MAX as i32 {
            self.width = sum as i16;
        }
    }

    /// Changes the height by `delta`, unless that would leave no row.
    pub fn change_height(&mut self, delta: i16)
        ensures
            final(self).height == Self::resized(old(self).height, delta),
            final(self).width == old(self).width,
    {
        let sum: i32 = self.height as i32 + delta as i32;
        if 0 < sum && sum <= i16::MAX as i32 {
            self.height = sum as i16;
        }
    }
}

/// Where an object starts, and which way it faces if that was said.
#[derive(Clone, Copy, Debug, PartialEq, Eq, Structural)]
pub struct InitialPositionAndDirection {
    pub position: Position,
    pub direction: Option<Direction>,
}

/// A level: the size of its grid and, for each object type that occurs, the
/// objects of that type in the order in which they were added.
pub struct Level {
    dimensions: Dimensions,
    sections: Vec<Option<Vec<InitialPositionAndDirection>>>,
}

/// What a level holds.
pub struct LevelView {
    pub dimensions: Dimensions,
    pub objects: Map<ObjectType, Seq<InitialPositionAndDirection>>,
}

/// The state of reading level text line by line: the level so far, the name
/// of the section the reader is in, and the direction that the next
/// positions of the section get.
pub struct Reader {
    pub level: LevelView,
    pub section: Option<Seq<char>>,
    pub direction: Option<Direction>,
}

/// Whether `line` is a section header: it starts with `[` and ends with `]`.
pub open spec fn is_header(line: Seq<char>) -> bool {
    line.len() >= 2 && line[0] == '[' && line.last() == ']'
}

/// The object placed by `x,y`, if both are numbers of cells: cells are
/// numbered from 1, and a pair with a smaller number is malformed.
pub open spec fn parse_location(
    s: Seq<char>,
    direction: Option<Direction>,
) -> Option<InitialPositionAndDirection> {
    let comma = find(s, ',') as int;
    if comma == s.len() {
        None
    } else {
        match (parse_i16(s.subrange(0, comma)), parse_i16(s.subrange(comma + 1, s.len() as int))) {
            (Some(x), Some(y)) if x >= 1 && y >= 1 => Some(
                InitialPositionAndDirection { position: Position { x, y }, direction },
            ),
            _ => None,
        }
    }
}

/// The objects placed by `x,y;x,y;...`, skipping the pairs that are
/// malformed.
pub open spec fn parse_positions(s: Seq<char>, direction: Option<Direction>) -> Seq<
    InitialPositionAndDirection,
>
    decreases s.len(),
{
    let end = find(s, ';') as int;
    let first = match parse_location(s.subrange(0, end), direction) {
        Some(placement) => seq![placement],
        None => seq![],
    };
    if end >= s.len() {
        first
    } else {
        first + parse_positions(s.subrange(end + 1, s.len() as int), direction)
    }
}

/// The objects of type `object_type` in `objects`; none if the type does
/// not occur.
pub open spec fn placements_of(
    objects: Map<ObjectType, Seq<InitialPositionAndDirection>>,
    object_type: ObjectType,
) -> Seq<InitialPositionAndDirection> {
    if objects.contains_key(object_type) {
        objects[object_type]
    } else {
        seq![]
    }
}

/// The reader after a `key=value` line of the section `[General]`: a width or
/// a height of at least 1 is taken over, and any other value is skipped.
pub open spec fn parse_general(reader: Reader, key: Seq<char>, value: Seq<char>) -> Reader {
    match parse_i16(value) {
        Some(number) if number >= 1 => if key == "Width"@ {
            Reader {
                level: LevelView {
                    dimensions: Dimensions { width: number, ..reader.level.dimensions },
                    ..reader.level
                },
                ..reader
            }
        } else if key == "Height"@ {
            Reader {
                level: LevelView {
                    dimensions: Dimensions { height: number, ..reader.level.dimensions },
                    ..reader.level
                },
                ..reader
            }
        } else {
            reader
        },
        _ => reader,
    }
}

/// The reader after a `key=value` line of the section of an object type.
pub open spec fn parse_object_line(
    reader: Reader,
    object_type: ObjectType,
    key: Seq<char>,
    value: Seq<char>,
) -> Reader {
    if key == "Position"@ {
        let placements = parse_positions(value, reader.direction);
        if placements.len() > 0 {
            Reader {
                level: LevelView {
                    objects: reader.level.objects.insert(
                        object_type,
                        placements_of(reader.level.objects, object_type) + placements,
                    ),
                    ..reader.level
                },
                ..reader
            }
        } else {
            reader
        }
    } else if key == "Direction"@ {
        match Direction::spec_from_name(value) {
            Some(direction) => Reader { direction: Some(direction), ..reader },
            None => reader,
        }
    } else {
        reader
    }
}

/// The reader after one line, already trimmed. A header opens a section and
/// forgets the direction. A `key=value` line is read by the rules of the
/// section it stands in. Every other line, and every line outside a known
/// section, is skipped.
pub open spec fn parse_line(reader: Reader, line: Seq<char>) -> Reader {
    if is_header(line) {
        Reader { section: Some(line.subrange(1, line.len() - 1)), direction: None, ..reader }
    } else {
        let eq = find(line, '=') as int;
        if eq == line.len() {
            reader
        } else {
            let key = line.subrange(0, eq);
            let value = line.subrange(eq + 1, line.len() as int);
            match reader.section {
                None => reader,
                Some(name) => if name == "General"@ {
                    parse_general(reader, key, value)
                } else {
                    match ObjectType::spec_from_name(name) {
                        Some(object_type) => parse_object_line(reader, object_type, key, value),
                        None => reader,
                    }
                },
            }
        }
    }
}

/// The reader after all lines of `s`. Lines end at a line feed; the white
/// space at both ends of a line does not count.
pub open spec fn parse_lines(s: Seq<char>, reader: Reader) -> Reader
    decreases s.len(),
{
    let end = find(s, '\n') as int;
    let next = parse_line(reader, trim(s.subrange(0, end)));
    if end >= s.len() {
        next
    } else {
        parse_lines(s.subrange(end + 1, s.len() as int), next)
    }
}

/// Whether the level is one that a text can describe: its grid has at least
/// one column and one row, and the cells that its objects stand on are
/// numbered from 1.
pub open spec fn is_proper(level: LevelView) -> bool {
    &&& level.dimensions.width >= 1
    &&& level.dimensions.height >= 1
    &&& forall|t: ObjectType, i: int|
        level.objects.contains_key(t) && 0 <= i < level.objects[t].len() ==> (
        #[trigger] level.objects[t][i]).position.x >= 1 && level.objects[t][i].position.y >= 1
}

/// The level that the text `content` describes: 16 by 16 and empty unless
/// the text says otherwise.
pub open spec fn parse_level(content: Seq<char>) -> LevelView {
    parse_lines(
        content,
        Reader {
            level: LevelView {
                dimensions: Dimensions { width: 16, height: 16 },
                objects: Map::empty(),
            },
            section: None,
            direction: None,
        },
    ).level
}

/// The objects that a position line places stand on cells numbered from 1.
pub proof fn lemma_positions_proper(s: Seq<char>, direction: Option<Direction>)
    ensures
        forall|i: int|
            0 <= i < parse_positions(s, direction).len() ==> (#[trigger] parse_positions(
                s,
                direction,
            )[i]).position.x >= 1 && parse_positions(s, direction)[i].position.y >= 1,
    decreases s.len(),
{
    let end = find(s, ';') as int;
    if end < s.len() {
        lemma_positions_proper(s.subrange(end + 1, s.len() as int), direction);
    }
}

/// A line leaves a proper level proper.
pub proof fn lemma_line_proper(reader: Reader, line: Seq<char>)
    requires
        is_proper(reader.level),
    ensures
        is_proper(parse_line(reader, line).level),
{
    let after = parse_line(reader, line).level;
    let eq = find(line, '=') as int;
    if is_header(line) || eq == line.len() || reader.section is None {
        assert(after == reader.level);
    } else {
        let value = line.subrange(eq + 1, line.len() as int);
        assert(after.dimensions.width >= 1 && after.dimensions.height >= 1);
        lemma_positions_proper(value, reader.direction);
        let added = parse_positions(value, reader.direction);
        assert forall|t: ObjectType, i: int|
            after.objects.contains_key(t) && 0 <= i < after.objects[t].len() implies (
        #[trigger] after.objects[t][i]).position.x >= 1 && after.objects[t][i].position.y
            >= 1 by {
            if after.objects[t] != placements_of(reader.level.objects, t) {
                let before = placements_of(reader.level.objects, t);
                assert(after.objects[t] == before + added);
                if i < before.len() {
                    assert(reader.level.objects[t][i].position.x >= 1);
                } else {
                    assert(added[i - before.len()].position.x >= 1);
                }
            } else {
                assert(reader.level.objects.contains_key(t));
                assert(reader.level.objects[t][i].position.x >= 1);
            }
        }
    }
}

/// Reading text leaves a proper level proper.
pub proof fn lemma_lines_proper(s: Seq<char>, reader: Reader)
    requires
        is_proper(reader.level),
    ensures
        is_proper(parse_lines(s, reader).level),
    decreases s.len(),
{
    let end = find(s, '\n') as int;
    let next = parse_line(reader, trim(s.subrange(0, end)));
    lemma_line_proper(reader, trim(s.subrange(0, end)));
    if end < s.len() {
        lemma_lines_proper(s.subrange(end + 1, s.len() as int), next);
    }
}

/// Every text describes a proper level: a grid of at least one column and
/// one row, and objects on cells numbered from 1.
pub proof fn lemma_loaded_is_proper(content: Seq<char>)
    ensures
        is_proper(parse_level(content)),
{
    lemma_lines_proper(
        content,
        Reader {
            level: LevelView {
                dimensions: Dimensions { width: 16, height: 16 },
                objects: Map::empty(),
            },
            section: None,
            direction: None,
        },
    );
}

/// The place of a direction in the order in which a section lists its
/// objects: those without a direction first, then Up, Right, Down, Left.
pub open spec fn direction_rank(direction: Option<Direction>) -> int {
    match direction {
        None => 0,
        Some(d) => 1 + d.spec_index(),
    }
}

/// The order in which a section lists its objects: by direction, then by
/// column, then by row.
pub open spec fn placement_le(
    a: InitialPositionAndDirection,
    b: InitialPositionAndDirection,
) -> bool {
    let ra = direction_rank(a.direction);
    let rb = direction_rank(b.direction);
    ra < rb || (ra == rb && (a.position.x < b.position.x || (a.position.x == b.position.x
        && a.position.y <= b.position.y)))
}

/// Where `p` goes into the ordered sequence `s`: behind the last object
/// that does not come after it.
pub open spec fn insertion_point(
    s: Seq<InitialPositionAndDirection>,
    p: InitialPositionAndDirection,
) -> int
    decreases s.len(),
{
    if s.len() == 0 {
        0
    } else if placement_le(s.last(), p) {
        s.len() as int
    } else {
        insertion_point(s.drop_last(), p)
    }
}

/// The objects of `s` in the order in which a section lists them.
pub open spec fn sorted(s: Seq<InitialPositionAndDirection>) -> Seq<InitialPositionAndDirection>
    decreases s.len(),
{
    if s.len() == 0 {
        s
    } else {
        let front = sorted(s.drop_last());
        front.insert(insertion_point(front, s.last()), s.last())
    }
}

/// The line that places an object at `position`.
pub open spec fn print_position(position: Position) -> Seq<char> {
    "Position="@ + print_int(position.x as int) + ","@ + print_int(position.y as int) + "\n"@
}

/// The lines that place the objects of `s`, for a reader that currently
/// gives positions the direction `current`: a `Direction=` line goes before
/// each object whose direction is given and differs from the current one.
pub open spec fn print_placements(
    s: Seq<InitialPositionAndDirection>,
    current: Direction,
) -> Seq<char>
    decreases s.len(),
{
    if s.len() == 0 {
        Seq::empty()
    } else {
        match s[0].direction {
            Some(direction) if direction != current => "Direction="@ + direction.spec_name()
                + "\n"@ + print_position(s[0].position) + print_placements(
                s.drop_first(),
                direction,
            ),
            _ => print_position(s[0].position) + print_placements(s.drop_first(), current),
        }
    }
}

/// The section of an object type: a blank line, the header, and the objects
/// in order.
pub open spec fn print_section(
    object_type: ObjectType,
    placements: Seq<InitialPositionAndDirection>,
) -> Seq<char> {
    "\n["@ + object_type.spec_name() + "]\n"@ + print_placements(
        sorted(placements),
        Direction::Up,
    )
}

/// The sections of the object types from position `from` on that occur in
/// `objects`.
pub open spec fn print_sections(
    objects: Map<ObjectType, Seq<InitialPositionAndDirection>>,
    from: usize,
) -> Seq<char>
    decreases OBJECT_TYPES - from,
{
    if from >= OBJECT_TYPES {
        Seq::empty()
    } else {
        let object_type = ObjectType::spec_from_index(from);
        let section = if objects.contains_key(object_type) {
            print_section(object_type, objects[object_type])
        } else {
            Seq::empty()
        };
        section + print_sections(objects, (from + 1) as usize)
    }
}

/// The text of a level.
pub open spec fn print_level(level: LevelView) -> Seq<char> {
    "[General]\nWidth="@ + print_int(level.dimensions.width as int) + "\nHeight="@ + print_int(
        level.dimensions.height as int,
    ) + "\n"@ + print_sections(level.objects, 0)
}

impl View for Level {
    type V = LevelView;

    closed spec fn view(&self) -> LevelView {
        LevelView {
            dimensions: self.dimensions,
            objects: Map::new(
                |t: ObjectType| self.sections[t.spec_index() as int] is Some,
                |t: ObjectType| self.sections[t.spec_index() as int]->0@,
            ),
        }
    }
}

/// The name of the section a reader is in, as characters.
pub open spec fn section_name(section: Option<&[char]>) -> Option<Seq<char>> {
    match section {
        Some(name) => Some(name@),
        None => None,
    }
}

fn read_location(s: &[char], direction: Option<Direction>) -> (r: Option<
    InitialPositionAndDirection,
>)
    ensures
        r == parse_location(s@, direction),
{
    let comma: usize = position_of(s, ',');
    if comma == s.len() {
        return None;
    }
    let x = parse_number(slice_subrange(s, 0, comma));
    let y = parse_number(slice_subrange(s, comma + 1, s.len()));
    match (x, y) {
        (Some(x), Some(y)) => if x >= 1 && y >= 1 {
            Some(InitialPositionAndDirection { position: Position { x, y }, direction })
        } else {
            None
        },
        _ => None,
    }
}

fn read_positions(s: &[char], direction: Option<Direction>) -> (r: Vec<
    InitialPositionAndDirection,
>)
    ensures
        r@ == parse_positions(s@, direction),
{
    let mut placements: Vec<InitialPositionAndDirection> = Vec::new();
    let mut rest: &[char] = s;
    let mut done: bool = false;
    while !done
        invariant
            !done ==> parse_positions(s@, direction) == placements@ + parse_positions(
                rest@,
                direction,
            ),
            done ==> parse_positions(s@, direction) == placements@,
        decreases
                (if done {
                    0
                } else {
                    1 + rest.len()
                }),
    {
        let end: usize = position_of(rest, ';');
        let ghost before = placements@;
        match read_location(slice_subrange(rest, 0, end), direction) {
            Some(placement) => {
                placements.push(placement);
                assert(placements@ == before + seq![placement]);
            },
            None => {
                assert(placements@ == before + Seq::<InitialPositionAndDirection>::empty());
            },
        }
        if end >= rest.len() {
            done = true;
        } else {
            let ghost tail = parse_positions(rest@.subrange(end + 1, rest.len() as int), direction);
            assert(parse_positions(s@, direction) == placements@ + tail) by {
                let first = match parse_location(rest@.subrange(0, end as int), direction) {
                    Some(placement) => seq![placement],
                    None => seq![],
                };
                assert(before + (first + tail) =~= (before + first) + tail);
            }
            rest = slice_subrange(rest, end + 1, rest.len());
        }
    }
    placements
}

fn rank(direction: Option<Direction>) -> (r: u8)
    ensures
        r == direction_rank(direction),
{
    match direction {
        None => 0,
        Some(d) => 1 + d.index(),
    }
}

fn comes_before(a: &InitialPositionAndDirection, b: &InitialPositionAndDirection) -> (r: bool)
    ensures
        r == placement_le(*a, *b),
{
    let ra: u8 = rank(a.direction);
    let rb: u8 = rank(b.direction);
    ra < rb || (ra == rb && (a.position.x < b.position.x || (a.position.x == b.position.x
        && a.position.y <= b.position.y)))
}

fn sort_placements(list: &Vec<InitialPositionAndDirection>) -> (r: Vec<
    InitialPositionAndDirection,
>)
    ensures
        r@ == sorted(list@),
{
    let mut r: Vec<InitialPositionAndDirection> = Vec::new();
    let mut i: usize = 0;
    while i < list.len()
        invariant
            i <= list.len(),
            r@ == sorted(list@.take(i as int)),
            r.len() == i,
        decreases list.len() - i,
    {
        let p: InitialPositionAndDirection = list[i];
        let mut k: usize = r.len();
        proof {
            assert(r@.take(k as int) == r@);
        }
        while k > 0 && !comes_before(&r[k - 1], &p)
            invariant
                k <= r.len(),
                insertion_point(r@, p) == insertion_point(r@.take(k as int), p),
            decreases k,
        {
            proof {
                assert(r@.take(k as int).drop_last() == r@.take(k - 1));
            }
            k -= 1;
        }
        proof {
            assert(list@.take(i + 1).drop_last() == list@.take(i as int));
            assert(list@.take(i + 1).last() == p);
            assert(insertion_point(r@, p) == k);
        }
        r.insert(k, p);
        i += 1;
    }
    proof {
        assert(list@.take(i as int) == list@);
    }
    r
}

fn write_position(out: &mut String, position: Position)
    ensures
        final(out)@ == old(out)@ + print_position(position),
{
    out.append("Position=");
    push_number(out, position.x);
    out.append(",");
    push_number(out, position.y);
    out.append("\n");
    assert(out@ =~= old(out)@ + print_position(position));
}

fn write_placements(out: &mut String, list: &Vec<InitialPositionAndDirection>)
    ensures
        final(out)@ == old(out)@ + print_placements(list@, Direction::Up),
{
    let mut current: Direction = Direction::Up;
    let mut i: usize = 0;
    proof {
        assert(list@.subrange(0, list.len() as int) == list@);
    }
    while i < list.len()
        invariant
            i <= list.len(),
            out@ + print_placements(list@.subrange(i as int, list.len() as int), current) == old(
                out,
            )@ + print_placements(list@, Direction::Up),
        decreases list.len() - i,
    {
        let placement: InitialPositionAndDirection = list[i];
        let ghost before = out@;
        let ghost here = list@.subrange(i as int, list.len() as int);
        let ghost next = list@.subrange(i + 1, list.len() as int);
        proof {
            assert(here.drop_first() == next);
            assert(here[0] == placement);
        }
        let mut turned: bool = false;
        match placement.direction {
            Some(direction) => {
                if direction != current {
                    out.append("Direction=");
                    out.append(direction.name());
                    out.append("\n");
                    current = direction;
                    turned = true;
                }
            },
            None => {},
        }
        write_position(out, placement.position);
        proof {
            if turned {
                assert(out@ + print_placements(next, current) =~= before + ("Direction="@
                    + current.spec_name() + "\n"@ + print_position(placement.position)
                    + print_placements(next, current)));
            } else {
                assert(out@ + print_placements(next, current) =~= before + (print_position(
                    placement.position,
                ) + print_placements(next, current)));
            }
        }
        i += 1;
    }
    proof {
        assert(list@.subrange(i as int, list.len() as int) =~= Seq::empty());
        assert(out@ + Seq::<char>::empty() =~= out@);
    }
}

impl Level {
    #[verifier::type_invariant]
    spec fn well_formed(self) -> bool {
        self.sections.len() == OBJECT_TYPES
    }

    /// A level of the given size without objects.
    pub fn new(dimensions: Dimensions) -> (level: Level)
        ensures
            level@ == (LevelView { dimensions, objects: Map::empty() }),
    {
        let mut sections: Vec<Option<Vec<InitialPositionAndDirection>>> = Vec::new();
        let mut i: usize = 0;
        while i < OBJECT_TYPES
            invariant
                i <= OBJECT_TYPES,
                sections.len() == i,
                forall|j: int| 0 <= j < i ==> sections[j] is None,
            decreases OBJECT_TYPES - i,
        {
            sections.push(None);
            i += 1;
        }
        let level = Level { dimensions, sections };
        assert(level@.objects =~= Map::empty());
        level
    }

    /// The size of the grid.
    pub fn dimensions(&self) -> (dimensions: Dimensions)
        ensures
            dimensions == self@.dimensions,
    {
        self.dimensions
    }

    /// The objects of one type, if the type occurs in the level.
    pub fn get(&self, object_type: ObjectType) -> (placements: Option<
        &Vec<InitialPositionAndDirection>,
    >)
        ensures
            placements is Some <==> self@.objects.contains_key(object_type),
            placements matches Some(list) ==> list@ == self@.objects[object_type],
    {
        proof {
            use_type_invariant(self);
        }
        match &self.sections[object_type.index()] {
            Some(list) => Some(list),
            None => None,
        }
    }

    /// Adds objects of one type behind those that the level already holds of
    /// it. The type occurs in the level from then on, even if `placements` is
    /// empty.
    pub fn extend(&mut self, object_type: ObjectType, placements: Vec<InitialPositionAndDirection>)
        ensures
            final(self)@.dimensions == old(self)@.dimensions,
            final(self)@.objects == old(self)@.objects.insert(
                object_type,
                placements_of(old(self)@.objects, object_type) + placements@,
            ),
    {
        proof {
            use_type_invariant(&*self);
        }
        let index: usize = object_type.index();
        let mut placements = placements;
        let ghost added = placements@;
        match &mut self.sections[index] {
            Some(list) => {
                list.append(&mut placements);
            },
            slot => {
                *slot = Some(placements);
            },
        }
        proof {
            assert(final(self)@.objects =~= old(self)@.objects.insert(
                object_type,
                placements_of(old(self)@.objects, object_type) + added,
            )) by {
                assert forall|t: ObjectType| t.spec_index() == index implies t == object_type by {
                    ObjectType::lemma_index_identifies(t, object_type);
                }
                assert(Seq::<InitialPositionAndDirection>::empty() + added =~= added);
            }
        }
    }

    /// Adds one object behind those that the level already holds of its type.
    pub fn push(&mut self, object_type: ObjectType, placement: InitialPositionAndDirection)
        ensures
            final(self)@.dimensions == old(self)@.dimensions,
            final(self)@.objects == old(self)@.objects.insert(
                object_type,
                placements_of(old(self)@.objects, object_type).push(placement),
            ),
    {
        let mut one: Vec<InitialPositionAndDirection> = Vec::new();
        one.push(placement);
        self.extend(object_type, one);
        proof {
            let before = placements_of(old(self)@.objects, object_type);
            assert(before + seq![placement] =~= before.push(placement));
        }
    }

    fn read_general(&mut self, key: &[char], value: &[char])
        ensures
            final(self)@ == parse_general(
                Reader { level: old(self)@, section: None, direction: None },
                key@,
                value@,
            ).level,
    {
        proof {
            use_type_invariant(&*self);
        }
        match parse_number(value) {
            Some(number) => {
                if number >= 1 {
                    if is_word(key, "Width") {
                        self.dimensions.width = number;
                    } else if is_word(key, "Height") {
                        self.dimensions.height = number;
                    }
                }
            },
            None => {},
        }
    }

    fn read_object_line(
        &mut self,
        direction: &mut Option<Direction>,
        object_type: ObjectType,
        key: &[char],
        value: &[char],
    )
        ensures
            (Reader { level: final(self)@, section: None, direction: *final(direction) })
                == parse_object_line(
                Reader { level: old(self)@, section: None, direction: *old(direction) },
                object_type,
                key@,
                value@,
            ),
    {
        if is_word(key, "Position") {
            let placements = read_positions(value, *direction);
            if placements.len() > 0 {
                self.extend(object_type, placements);
            }
        } else if is_word(key, "Direction") {
            match Direction::from_chars(value) {
                Some(d) => {
                    *direction = Some(d);
                },
                None => {},
            }
        }
    }

    fn read_line<'a>(
        &mut self,
        section: &mut Option<&'a [char]>,
        direction: &mut Option<Direction>,
        line: &'a [char],
    )
        ensures
            (Reader {
                level: final(self)@,
                section: section_name(*final(section)),
                direction: *final(direction),
            }) == parse_line(
                Reader {
                    level: old(self)@,
                    section: section_name(*old(section)),
                    direction: *old(direction),
                },
                line@,
            ),
    {
        let n: usize = line.len();
        if n >= 2 && line[0] == '[' && line[n - 1] == ']' {
            *section = Some(slice_subrange(line, 1, n - 1));
            *direction = None;
            return ;
        }
        let eq: usize = position_of(line, '=');
        if eq == n {
            return ;
        }
        let key: &[char] = slice_subrange(line, 0, eq);
        let value: &[char] = slice_subrange(line, eq + 1, n);
        match *section {
            None => {},
            Some(name) => {
                if is_word(name, "General") {
                    self.read_general(key, value);
                } else {
                    match ObjectType::from_chars(name) {
                        Some(object_type) => {
                            self.read_object_line(direction, object_type, key, value);
                        },
                        None => {},
                    }
                }
            },
        }
    }

    /// Reads a level from its text.
    ///
    /// Nothing in the text is fatal: a line that cannot be read is skipped,
    /// and so are a width or height below 1 and a coordinate pair that is
    /// malformed or names a cell below 1. The level that comes out is proper.
    pub fn load(content: &str) -> (level: Level)
        ensures
            level@ == parse_level(content@),
            is_proper(level@),
    {
        proof {
            lemma_loaded_is_proper(content@);
        }
        let chars: Vec<char> = chars_of(content);
        let mut level: Level = Level::new(Dimensions::default());
        let mut section: Option<&[char]> = None;
        let mut direction: Option<Direction> = None;
        let mut rest: &[char] = chars.as_slice();
        let mut done: bool = false;
        while !done
            invariant
                !done ==> parse_level(content@) == parse_lines(
                    rest@,
                    Reader { level: level@, section: section_name(section), direction },
                ).level,
                done ==> parse_level(content@) == level@,
            decreases
                    (if done {
                        0
                    } else {
                        1 + rest.len()
                    }),
        {
            let end: usize = position_of(rest, '\n');
            let line: &[char] = trimmed(slice_subrange(rest, 0, end));
            level.read_line(&mut section, &mut direction, line);
            if end >= rest.len() {
                done = true;
            } else {
                rest = slice_subrange(rest, end + 1, rest.len());
            }
        }
        level
    }

    /// Writes the level as text: the size of the grid, then one section for
    /// each object type that occurs, with its objects ordered by direction
    /// and position.
    pub fn save(self) -> (content: String)
        ensures
            content@ == print_level(self@),
    {
        proof {
            use_type_invariant(&self);
        }
        let mut content: String = String::from_str("[General]\nWidth=");
        push_number(&mut content, self.dimensions.width);
        content.append("\nHeight=");
        push_number(&mut content, self.dimensions.height);
        content.append("\n");
        let ghost head = content@;
        let mut i: usize = 0;
        while i < OBJECT_TYPES
            invariant
                i <= OBJECT_TYPES,
                self.sections.len() == OBJECT_TYPES,
                content@ + print_sections(self@.objects, i) == head + print_sections(
                    self@.objects,
                    0,
                ),
            decreases OBJECT_TYPES - i,
        {
            let object_type: ObjectType = ObjectType::from_index(i);
            let ghost before = content@;
            let ghost tail = print_sections(self@.objects, (i + 1) as usize);
            match &self.sections[i] {
                Some(list) => {
                    content.append("\n[");
                    content.append(object_type.name());
                    content.append("]\n");
                    let ordered = sort_placements(list);
                    write_placements(&mut content, &ordered);
                    proof {
                        assert(content@ + tail =~= before + (print_section(object_type, list@)
                            + tail));
                    }
                },
                None => {
                    proof {
                        assert(content@ + tail =~= before + (Seq::<char>::empty() + tail));
                    }
                },
            }
            i += 1;
        }
        proof {
            assert(content@ + Seq::<char>::empty() =~= content@);
            assert(head =~= "[General]\nWidth="@ + print_int(self@.dimensions.width as int)
                + "\nHeight="@ + print_int(self@.dimensions.height as int) + "\n"@);
        }
        content
    }
}

} // verus!
