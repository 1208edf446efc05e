//! The mission's text: a grid line, then pairs of lines, a start position
//! and a command string for each robot. Empty lines are skipped.
use itertools::Itertools;
use vstd::prelude::*;

use crate::mission_instructions::{
    coordinates_literal,
    commands_literal,
    parse_commands,
    valid_corner,
    Command,
    Coordinates,
    MissionError,
};
use crate::robots::{position_literal, Robot, RobotModel, RobotPosition, RobotStatus};
use crate::text::{chars_of, push_char};

verus! {

/// `l` without one `'\r'` at its end.
pub open spec fn trim_cr(l: Seq<char>) -> Seq<char> {
    if l.len() > 0 && l.last() == '\r' {
        l.drop_last()
    } else {
        l
    }
}

/// `done` with the line `l` added, unless it is empty.
pub open spec fn add_line(done: Seq<Seq<char>>, l: Seq<char>) -> Seq<Seq<char>> {
    if l.len() == 0 {
        done
    } else {
        done.push(l)
    }
}

/// Reading `s` from the start: the non-empty lines that a `'\n'` has ended,
/// and the line not yet ended.
pub open spec fn scan_lines(s: Seq<char>) -> (Seq<Seq<char>>, Seq<char>)
    decreases s.len(),
{
    if s.len() == 0 {
        (Seq::empty(), Seq::empty())
    } else {
        let before = scan_lines(s.drop_last());
        if s.last() == '\n' {
            (add_line(before.0, trim_cr(before.1)), Seq::empty())
        } else {
            (before.0, before.1.push(s.last()))
        }
    }
}

/// The non-empty lines of `s`, in order. Lines end at `'\n'`, and a `'\r'`
/// just before a `'\n'` is not part of its line; the last line needs no
/// `'\n'`, and keeps a `'\r'` at its end.
pub open spec fn text_lines(s: Seq<char>) -> Seq<Seq<char>> {
    add_line(scan_lines(s).0, scan_lines(s).1)
}

/// `t[lo..hi]` as a string.
fn string_of(t: &Vec<char>, lo: usize, hi: usize) -> (r: String)
    requires
        lo <= hi <= t@.len(),
    ensures
        r@ == t@.subrange(lo as int, hi as int),
{
    let mut r = String::new();
    let mut i: usize = lo;
    while i < hi
        invariant
            lo <= i <= hi <= t@.len(),
            r@ == t@.subrange(lo as int, i as int),
        decreases hi - i,
    {
        push_char(&mut r, t[i]);
        assert(r@ =~= t@.subrange(lo as int, i + 1));
        i = i + 1;
    }
    r
}

/// Adds `t[lo..hi]` to `out` as `add_line` does.
fn finish_line(out: &mut Vec<String>, t: &Vec<char>, lo: usize, hi: usize)
    requires
        lo <= hi <= t@.len(),
    ensures
        final(out)@.map_values(|l: String| l@) == add_line(
            old(out)@.map_values(|l: String| l@),
            t@.subrange(lo as int, hi as int),
        ),
{
    if lo < hi {
        let line = string_of(t, lo, hi);
        out.push(line);
        assert(final(out)@.map_values(|l: String| l@) =~= old(out)@.map_values(|l: String| l@).push(
            line@,
        ));
    }
}

/// The non-empty lines of `lines`, in order (see `text_lines`).
pub fn remove_lines_and_whitespace(lines: &str) -> (r: Vec<String>)
    ensures
        r@.map_values(|l: String| l@) == text_lines(lines@),
{
    let t = chars_of(lines);
    let mut out: Vec<String> = Vec::new();
    let mut start: usize = 0;
    let mut i: usize = 0;
    assert(t@.take(0) =~= Seq::<char>::empty());
    assert(out@.map_values(|l: String| l@) =~= Seq::<Seq<char>>::empty());
    while i < t.len()
        invariant
            start <= i <= t@.len(),
            t@ == lines@,
            scan_lines(t@.take(i as int)) == (
                out@.map_values(|l: String| l@),
                t@.subrange(start as int, i as int),
            ),
        decreases t@.len() - i,
    {
        assert(t@.take(i + 1).drop_last() =~= t@.take(i as int));
        if t[i] == '\n' {
            let end = if start < i && t[i - 1] == '\r' {
                assert(t@.subrange(start as int, i as int).drop_last() =~= t@.subrange(
                    start as int,
                    i - 1,
                ));
                i - 1
            } else {
                i
            };
            finish_line(&mut out, &t, start, end);
            start = i + 1;
        } else {
            assert(t@.subrange(start as int, i + 1) =~= t@.subrange(start as int, i as int).push(
                t@[i as int],
            ));
        }
        i = i + 1;
    }
    assert(t@.take(t@.len() as int) =~= t@);
    finish_line(&mut out, &t, start, t.len());
    out
}

/// `s` cut into consecutive runs of `size` items, the last run possibly
/// shorter.
pub open spec fn chunks_of<A>(s: Seq<A>, size: nat) -> Seq<Seq<A>>
    decreases s.len(),
{
    if s.len() == 0 || size == 0 {
        Seq::empty()
    } else if s.len() <= size {
        seq![s]
    } else {
        seq![s.take(size as int)] + chunks_of(s.skip(size as int), size)
    }
}

/// Relies on `Itertools::chunks` from itertools: it yields the items in
/// order, in runs of `size`, the last run possibly shorter; it panics when
/// `size` is zero.
#[verifier::external_body]
fn chunk_lines(lines: Vec<String>, size: usize) -> (r: Vec<Vec<String>>)
    requires
        size > 0,
    ensures
        r@.map_values(|c: Vec<String>| c@) == chunks_of(lines@, size as nat),
{
    lines.into_iter().chunks(size).into_iter().map(|c| c.collect()).collect()
}

/// Cutting into runs commutes with mapping every item.
proof fn lemma_chunks_of_map(s: Seq<String>, size: nat)
    requires
        size > 0,
    ensures
        chunks_of(s.map_values(|l: String| l@), size) == chunks_of(s, size).map_values(
            |c: Seq<String>| c.map_values(|l: String| l@),
        ),
    decreases s.len(),
{
    let f = |l: String| l@;
    let g = |c: Seq<String>| c.map_values(|l: String| l@);
    if s.len() == 0 {
        assert(chunks_of(s, size).map_values(g) =~= Seq::<Seq<Seq<char>>>::empty());
    } else if s.len() <= size {
        assert(chunks_of(s, size).map_values(g) =~= seq![s.map_values(f)]);
    } else {
        lemma_chunks_of_map(s.skip(size as int), size);
        assert(s.map_values(f).skip(size as int) =~= s.skip(size as int).map_values(f));
        assert(s.map_values(f).take(size as int) =~= s.take(size as int).map_values(f));
        assert(chunks_of(s, size).map_values(g) =~= seq![s.take(size as int).map_values(f)]
            + chunks_of(s.skip(size as int), size).map_values(g));
    }
}

/// The robot that the pair of lines `pair` writes: a start position, then
/// its commands. It starts alive.
pub open spec fn robot_literal(pair: Seq<Seq<char>>) -> Result<RobotModel, MissionError> {
    if pair.len() != 2 {
        Err(MissionError::UnpairedLine)
    } else {
        match position_literal(pair[0]) {
            Err(e) => Err(e),
            Ok(p) => match commands_literal(pair[1]) {
                None => Err(MissionError::InvalidCommand),
                Some(cs) => Ok((p, RobotStatus::Alive, cs)),
            },
        }
    }
}

/// The robots that `pairs` write, in order, or the error of the first pair
/// that is wrong.
pub open spec fn robots_literal(pairs: Seq<Seq<Seq<char>>>) -> Result<Seq<RobotModel>, MissionError>
    decreases pairs.len(),
{
    if pairs.len() == 0 {
        Ok(Seq::empty())
    } else {
        match robots_literal(pairs.drop_last()) {
            Err(e) => Err(e),
            Ok(rs) => match robot_literal(pairs.last()) {
                Err(e) => Err(e),
                Ok(r) => Ok(rs.push(r)),
            },
        }
    }
}

/// An error among the first `k` pairs is the error of all of them.
proof fn lemma_robots_literal_err(pairs: Seq<Seq<Seq<char>>>, k: int)
    requires
        0 <= k <= pairs.len(),
        robots_literal(pairs.take(k)) is Err,
    ensures
        robots_literal(pairs) == robots_literal(pairs.take(k)),
    decreases pairs.len() - k,
{
    if k < pairs.len() {
        assert(pairs.take(k + 1).drop_last() =~= pairs.take(k));
        lemma_robots_literal_err(pairs, k + 1);
    } else {
        assert(pairs.take(k) =~= pairs);
    }
}

/// The robot that the pair of lines `chunk` writes.
fn robot_from_chunk(chunk: &Vec<String>) -> (r: Result<Robot, MissionError>)
    ensures
        match robot_literal(chunk@.map_values(|l: String| l@)) {
            Ok(m) => r is Ok && r->Ok_0@ == m,
            Err(e) => r == Err::<Robot, MissionError>(e),
        },
{
    if chunk.len() != 2 {
        return Err(MissionError::UnpairedLine);
    }
    let ghost pair = chunk@.map_values(|l: String| l@);
    assert(pair[0] == chunk@[0]@ && pair[1] == chunk@[1]@);
    let position = match RobotPosition::from_str(chunk[0].as_str()) {
        Ok(p) => p,
        Err(e) => {
            return Err(e);
        },
    };
    let t = chars_of(chunk[1].as_str());
    assert(t@.subrange(0, t@.len() as int) =~= t@);
    match parse_commands(&t, 0, t.len()) {
        None => Err(MissionError::InvalidCommand),
        Some(robot_commands) => Ok(Robot { position, robot_commands, status: RobotStatus::Alive }),
    }
}

/// The robots that the lines `trimmed_strings` write, taken two by two.
pub fn generate_robots_from_strs(trimmed_strings: Vec<String>) -> (r: Result<
    Vec<Robot>,
    MissionError,
>)
    ensures
        match robots_literal(chunks_of(trimmed_strings@.map_values(|l: String| l@), 2)) {
            Ok(ms) => r is Ok && r->Ok_0@.map_values(|x: Robot| x@) == ms,
            Err(e) => r == Err::<Vec<Robot>, MissionError>(e),
        },
{
    let ghost g = |c: Seq<String>| c.map_values(|l: String| l@);
    let ghost pairs = chunks_of(trimmed_strings@.map_values(|l: String| l@), 2);
    proof {
        lemma_chunks_of_map(trimmed_strings@, 2);
    }
    let chunks = chunk_lines(trimmed_strings, 2);
    assert(pairs =~= chunks@.map_values(|c: Vec<String>| c@).map_values(g));
    let mut robots: Vec<Robot> = Vec::new();
    let mut k: usize = 0;
    assert(pairs.take(0) =~= Seq::<Seq<Seq<char>>>::empty());
    assert(robots@.map_values(|x: Robot| x@) =~= Seq::<RobotModel>::empty());
    while k < chunks.len()
        invariant
            k <= chunks@.len() == pairs.len(),
            pairs == chunks_of(trimmed_strings@.map_values(|l: String| l@), 2),
            forall|j: int| 0 <= j < pairs.len() ==> #[trigger] pairs[j] == chunks@[j]@.map_values(
                |l: String| l@,
            ),
            robots_literal(pairs.take(k as int)) == Ok::<Seq<RobotModel>, MissionError>(
                robots@.map_values(|x: Robot| x@),
            ),
        decreases chunks@.len() - k,
    {
        assert(pairs.take(k + 1).drop_last() =~= pairs.take(k as int));
        assert(pairs.take(k + 1).last() == pairs[k as int]);
        match robot_from_chunk(&chunks[k]) {
            Ok(robot) => {
                let ghost before = robots@.map_values(|x: Robot| x@);
                robots.push(robot);
                assert(robots@.map_values(|x: Robot| x@) =~= before.push(robot@));
            },
            Err(e) => {
                assert(robot_literal(pairs[k as int]) == Err::<RobotModel, MissionError>(e));
                assert(robots_literal(pairs.take(k + 1)) == Err::<Seq<RobotModel>, MissionError>(e));
                proof {
                    lemma_robots_literal_err(pairs, k + 1);
                }

                return Err(e);
            },
        }
        k = k + 1;
    }
    assert(pairs.take(k as int) =~= pairs);
    Ok(robots)
}

/// The robots that the text `lines` writes, in pairs of non-empty lines.
pub fn parse_robot_commands(lines: &str) -> (r: Result<Vec<Robot>, MissionError>)
    ensures
        match robots_literal(chunks_of(text_lines(lines@), 2)) {
            Ok(ms) => r is Ok && r->Ok_0@.map_values(|x: Robot| x@) == ms,
            Err(e) => r == Err::<Vec<Robot>, MissionError>(e),
        },
{
    let trimmed_lines = remove_lines_and_whitespace(lines);
    generate_robots_from_strs(trimmed_lines)
}

/// `t` without the spaces at its end.
pub open spec fn trim_end_spaces(t: Seq<char>) -> Seq<char>
    decreases t.len(),
{
    if t.len() > 0 && t.last() == ' ' {
        trim_end_spaces(t.drop_last())
    } else {
        t
    }
}

/// The end of `t[0..hi]` once the spaces at its end are dropped.
fn end_without_spaces(t: &Vec<char>, hi: usize) -> (r: usize)
    requires
        hi <= t@.len(),
    ensures
        r <= hi,
        t@.subrange(0, r as int) == trim_end_spaces(t@.subrange(0, hi as int)),
{
    let mut end: usize = hi;
    while end > 0 && t[end - 1] == ' '
        invariant
            end <= hi <= t@.len(),
            trim_end_spaces(t@.subrange(0, end as int)) == trim_end_spaces(
                t@.subrange(0, hi as int),
            ),
        decreases end,
    {
        assert(t@.subrange(0, end as int).drop_last() =~= t@.subrange(0, end - 1));
        end = end - 1;
    }
    end
}

/// The mission that the text `text` writes: its first non-empty line is the
/// grid's upper-right corner, perhaps followed by spaces, which must lie
/// within `[0, 50]` on both axes;
/// the lines after it, two by two, are the robots.
pub open spec fn mission_literal(text: Seq<char>) -> Result<
    (Coordinates, Seq<RobotModel>),
    MissionError,
> {
    let lines = text_lines(text);
    if lines.len() == 0 {
        Err(MissionError::MissingGrid)
    } else {
        match coordinates_literal(trim_end_spaces(lines[0])) {
            None => Err(MissionError::InvalidCoordinates),
            Some(c) => if !valid_corner(c) {
                Err(MissionError::GridOutOfRange { x: c.x, y: c.y })
            } else {
                match robots_literal(chunks_of(lines.drop_first(), 2)) {
                    Err(e) => Err(e),
                    Ok(rs) => Ok((c, rs)),
                }
            },
        }
    }
}

/// Reads a whole mission. Nothing is simulated here.
pub fn parse_input_to_command(commands: &str) -> (r: Result<Command, MissionError>)
    ensures
        match mission_literal(commands@) {
            Ok(m) => r is Ok && r->Ok_0@ == m,
            Err(e) => r == Err::<Command, MissionError>(e),
        },
{
    let mut lines = remove_lines_and_whitespace(commands);
    if lines.len() == 0 {
        return Err(MissionError::MissingGrid);
    }
    assert(lines@.map_values(|l: String| l@)[0] == lines@[0]@);
    let grid = chars_of(lines[0].as_str());
    assert(grid@.subrange(0, grid@.len() as int) =~= grid@);
    let end = end_without_spaces(&grid, grid.len());
    let coordinates = match Coordinates::parse_chars(&grid, 0, end) {
        Some(c) => c,
        None => {
            return Err(MissionError::InvalidCoordinates);
        },
    };
    match coordinates.check_max_value() {
        Ok(()) => {},
        Err(e) => {
            return Err(e);
        },
    }
    let ghost all = lines@;
    lines.remove(0);
    assert(lines@.map_values(|l: String| l@) =~= all.map_values(|l: String| l@).drop_first());
    let robots = match generate_robots_from_strs(lines) {
        Ok(rs) => rs,
        Err(e) => {
            return Err(e);
        },
    };
    Ok(Command { upper_right: coordinates, robots })
}

} // verus!
