//! Which lines of which files a model has seen and may edit.
use vstd::prelude::*;

use crate::event::{ToolCall, ToolCallResult, ToolResultState};
use crate::json::{
    array_view, get_in, json_bool, json_get, json_in, json_maybe, json_read, json_text, json_u64,
    lemma_array_items, lemma_array_push, owned_text, parse_json, Json, JsonView,
};
use crate::text::{forward_slashes, logical_path, parse_u64, parsed_u64, same, without_dot_prefix};

verus! {

/// Whether one of the ranges holds the line.
pub open spec fn covers(ranges: Seq<(u64, u64)>, line: u64) -> bool {
    exists|i: int| 0 <= i < ranges.len() && (#[trigger] ranges[i]).0 <= line <= ranges[i].1
}

/// Whether the ranges hold a line each, stand in order, and have a line between any two.
pub open spec fn separated(ranges: Seq<(u64, u64)>) -> bool {
    &&& forall|i: int| 0 <= i < ranges.len() ==> (#[trigger] ranges[i]).0 <= ranges[i].1
    &&& forall|i: int, j: int|
        0 <= i < j < ranges.len() ==> (#[trigger] ranges[i]).1 + 1 < (#[trigger] ranges[j]).0
}

/// Whether the ranges are the lines of the set, as few ranges as there can be.
pub open spec fn divides(ranges: Seq<(u64, u64)>, lines: Set<u64>) -> bool {
    &&& separated(ranges)
    &&& forall|line: u64| #[trigger] covers(ranges, line) <==> lines.contains(line)
}

/// The lines of the set in as few ranges as there can be.
pub open spec fn ranges_of(lines: Set<u64>) -> Seq<(u64, u64)> {
    choose|ranges: Seq<(u64, u64)>| divides(ranges, lines)
}

/// The lines that ranges hold.
pub open spec fn lines_in(ranges: Seq<(u64, u64)>) -> Set<u64> {
    Set::new(|line: u64| covers(ranges, line))
}

proof fn lemma_tail(ranges: Seq<(u64, u64)>, line: u64)
    requires
        separated(ranges),
        ranges.len() > 0,
    ensures
        separated(ranges.skip(1)),
        covers(ranges.skip(1), line) <==> covers(ranges, line) && line > ranges[0].1,
{
    let tail = ranges.skip(1);
    assert forall|i: int| 0 <= i < tail.len() implies (#[trigger] tail[i]).0 <= tail[i].1 by {
        assert(ranges[i + 1].0 <= ranges[i + 1].1);
    }
    assert forall|i: int, j: int| 0 <= i < j < tail.len() implies (#[trigger] tail[i]).1 + 1 < (
    #[trigger] tail[j]).0 by {
        assert(ranges[i + 1].1 + 1 < ranges[j + 1].0);
    }
    if covers(tail, line) {
        let i = choose|i: int| 0 <= i < tail.len() && (#[trigger] tail[i]).0 <= line <= tail[i].1;
        assert(ranges[i + 1].0 <= line <= ranges[i + 1].1);
        assert(ranges[0].1 + 1 < ranges[i + 1].0);
    }
    if covers(ranges, line) && line > ranges[0].1 {
        let i = choose|i: int|
            0 <= i < ranges.len() && (#[trigger] ranges[i]).0 <= line <= ranges[i].1;
        assert(tail[i - 1].0 <= line <= tail[i - 1].1);
    }
}

/// There is only one way to divide lines into as few ranges as there can be.
pub proof fn law_ranges_are_determined(
    left: Seq<(u64, u64)>,
    right: Seq<(u64, u64)>,
    lines: Set<u64>,
)
    requires
        divides(left, lines),
        divides(right, lines),
    ensures
        left == right,
    decreases left.len(),
{
    if left.len() == 0 {
        if right.len() > 0 {
            assert(covers(right, right[0].0));
            assert(covers(left, right[0].0));
        }
        assert(left =~= right);
    } else {
        assert(covers(left, left[0].0));
        assert(covers(right, left[0].0));
        assert(right.len() > 0);
        assert(covers(right, right[0].0));
        assert(covers(left, right[0].0));
        lemma_first(left, right[0].0);
        lemma_first(right, left[0].0);
        assert(left[0].0 == right[0].0);
        if left[0].1 < right[0].1 {
            lemma_after_first(left);
            let line = (left[0].1 + 1) as u64;
            assert(right[0].0 <= line <= right[0].1);
            assert(covers(right, line));
            assert(covers(left, line));
        }
        if right[0].1 < left[0].1 {
            lemma_after_first(right);
            let line = (right[0].1 + 1) as u64;
            assert(left[0].0 <= line <= left[0].1);
            assert(covers(left, line));
            assert(covers(right, line));
        }
        let rest = lines.filter(|line: u64| line > left[0].1);
        assert forall|line: u64| #[trigger] covers(left.skip(1), line) <==> rest.contains(line) by {
            lemma_tail(left, line);
            assert(covers(left, line) <==> lines.contains(line));
        }
        assert forall|line: u64| #[trigger] covers(right.skip(1), line) <==> rest.contains(
            line,
        ) by {
            lemma_tail(right, line);
            assert(covers(right, line) <==> lines.contains(line));
        }
        lemma_tail(left, 0);
        lemma_tail(right, 0);
        law_ranges_are_determined(left.skip(1), right.skip(1), rest);
        assert(left =~= seq![left[0]] + left.skip(1));
        assert(right =~= seq![right[0]] + right.skip(1));
    }
}

proof fn lemma_first(ranges: Seq<(u64, u64)>, line: u64)
    requires
        separated(ranges),
        covers(ranges, line),
    ensures
        ranges.len() > 0,
        ranges[0].0 <= line,
{
    let i = choose|i: int|
        0 <= i < ranges.len() && (#[trigger] ranges[i]).0 <= line <= ranges[i].1;
    if i > 0 {
        assert(ranges[0].1 + 1 < ranges[i].0);
        assert(ranges[0].0 <= ranges[0].1);
    }
}

proof fn lemma_after_first(ranges: Seq<(u64, u64)>)
    requires
        separated(ranges),
        ranges.len() > 0,
    ensures
        ranges[0].1 < u64::MAX ==> !covers(ranges, (ranges[0].1 + 1) as u64),
{
    if ranges[0].1 < u64::MAX {
        let line = (ranges[0].1 + 1) as u64;
        assert forall|i: int| 0 <= i < ranges.len() implies !((#[trigger] ranges[i]).0 <= line
            <= ranges[i].1) by {
            if i > 0 {
                assert(ranges[0].1 + 1 < ranges[i].0);
            }
        }
    }
}

/// Whether one of the ranges from a place up to another holds the line.
spec fn covers_between(ranges: Seq<(u64, u64)>, from: int, to: int, line: u64) -> bool {
    exists|i: int| from <= i < to && (#[trigger] ranges[i]).0 <= line <= ranges[i].1
}

/// Adds the lines of a range.
fn insert_range(ranges: &Vec<(u64, u64)>, start: u64, end: u64) -> (merged: Vec<(u64, u64)>)
    requires
        separated(ranges@),
        start <= end,
    ensures
        separated(merged@),
        forall|line: u64|
            #[trigger] covers(merged@, line) <==> covers(ranges@, line) || start <= line <= end,
{
    let mut merged: Vec<(u64, u64)> = Vec::new();
    let mut place: usize = 0;
    while place < ranges.len() && ranges[place].1 < start && start - ranges[place].1 > 1
        invariant
            place <= ranges@.len(),
            separated(ranges@),
            merged@ == ranges@.take(place as int),
            forall|i: int| 0 <= i < place ==> (#[trigger] ranges@[i]).1 + 1 < start,
        decreases ranges@.len() - place,
    {
        assert(ranges@.take(place + 1) =~= ranges@.take(place as int).push(ranges@[place as int]));
        merged.push(ranges[place]);
        place += 1;
    }
    let kept: usize = place;
    let mut low: u64 = start;
    let mut high: u64 = end;
    while place < ranges.len() && (ranges[place].0 <= high || ranges[place].0 - high <= 1)
        invariant
            kept <= place <= ranges@.len(),
            separated(ranges@),
            merged@ == ranges@.take(kept as int),
            forall|i: int| 0 <= i < kept ==> (#[trigger] ranges@[i]).1 + 1 < low,
            kept < ranges@.len() ==> ranges@[kept as int].1 + 1 >= start,
            low <= start <= end <= high,
            kept < place ==> low == (if ranges@[kept as int].0 < start {
                ranges@[kept as int].0
            } else {
                start
            }),
            kept == place ==> low == start && high == end,
            kept < place ==> high == (if ranges@[place - 1].1 > end {
                ranges@[place - 1].1
            } else {
                end
            }),
            forall|i: int| kept <= i < place ==> low <= (#[trigger] ranges@[i]).0 && ranges@[i].1
                <= high,
            forall|line: u64|
                low <= line <= high ==> start <= line <= end || #[trigger] covers_between(
                    ranges@,
                    kept as int,
                    place as int,
                    line,
                ),
        decreases ranges@.len() - place,
    {
        let ghost old_low = low;
        let ghost old_high = high;
        if ranges[place].0 < low {
            low = ranges[place].0;
        }
        if ranges[place].1 > high {
            high = ranges[place].1;
        }
        proof {
            if kept < place {
                assert(ranges@[kept as int].1 + 1 < ranges@[place as int].0);
                assert(ranges@[kept as int].0 <= ranges@[kept as int].1);
                assert(ranges@[place - 1].1 + 1 < ranges@[place as int].0);
            } else {
                assert forall|i: int| 0 <= i < kept implies (#[trigger] ranges@[i]).1 + 1
                    < low by {
                    assert(ranges@[i].1 + 1 < ranges@[place as int].0);
                }
            }
            assert forall|line: u64| low <= line <= high implies start <= line <= end
                || #[trigger] covers_between(ranges@, kept as int, place + 1, line) by {
                if old_low <= line <= old_high {
                    if !(start <= line <= end) {
                        assert(covers_between(ranges@, kept as int, place as int, line));
                        let i = choose|i: int|
                            kept <= i < place && (#[trigger] ranges@[i]).0 <= line
                                <= ranges@[i].1;
                        assert(ranges@[i].0 <= line <= ranges@[i].1);
                    }
                } else {
                    assert(ranges@[place as int].0 <= line <= ranges@[place as int].1);
                }
            }
        }
        place += 1;
    }
    let ghost front = merged@;
    merged.push((low, high));
    let ghost middle = merged@;
    let rest: usize = place;
    proof {
        assert forall|i: int| rest <= i < ranges@.len() implies high + 1 < (
        #[trigger] ranges@[i]).0 by {
            if i > rest {
                assert(ranges@[rest as int].1 + 1 < ranges@[i].0);
                assert(ranges@[rest as int].0 <= ranges@[rest as int].1);
            }
        }
    }
    while place < ranges.len()
        invariant
            rest <= place <= ranges@.len(),
            merged@ == middle + ranges@.subrange(rest as int, place as int),
        decreases ranges@.len() - place,
    {
        assert(ranges@.subrange(rest as int, place + 1) =~= ranges@.subrange(
            rest as int,
            place as int,
        ).push(ranges@[place as int]));
        merged.push(ranges[place]);
        place += 1;
    }
    proof {
        let gap = rest - kept - 1;
        assert(merged@ == front.push((low, high)) + ranges@.subrange(
            rest as int,
            ranges@.len() as int,
        ));
        assert forall|i: int| 0 <= i < merged@.len() implies #[trigger] merged@[i] == (if i
            < kept {
            ranges@[i]
        } else if i == kept {
            (low, high)
        } else {
            ranges@[i + gap]
        }) by {}
        assert forall|i: int| 0 <= i < merged@.len() implies (#[trigger] merged@[i]).0
            <= merged@[i].1 by {
            if i < kept {
                assert(ranges@[i].0 <= ranges@[i].1);
            } else if i > kept {
                assert(ranges@[i + gap].0 <= ranges@[i + gap].1);
            }
        }
        assert forall|i: int, j: int| 0 <= i < j < merged@.len() implies (#[trigger] merged@[i]).1
            + 1 < (#[trigger] merged@[j]).0 by {
            if j < kept {
                assert(ranges@[i].1 + 1 < ranges@[j].0);
            } else if j == kept {
                assert(ranges@[i].1 + 1 < low);
            } else if i == kept {
                assert(high + 1 < ranges@[j + gap].0);
            } else if i < kept {
                assert(ranges@[i].1 + 1 < ranges@[j + gap].0);
            } else {
                assert(ranges@[i + gap].1 + 1 < ranges@[j + gap].0);
            }
        }
        assert forall|line: u64| #[trigger] covers(merged@, line) <==> covers(ranges@, line)
            || start <= line <= end by {
            if covers(merged@, line) {
                let i = choose|i: int|
                    0 <= i < merged@.len() && (#[trigger] merged@[i]).0 <= line <= merged@[i].1;
                if i < kept {
                    assert(ranges@[i].0 <= line <= ranges@[i].1);
                } else if i > kept {
                    assert(ranges@[i + gap].0 <= line <= ranges@[i + gap].1);
                } else if !(start <= line <= end) {
                    assert(covers_between(ranges@, kept as int, rest as int, line));
                    let k = choose|k: int|
                        kept <= k < rest && (#[trigger] ranges@[k]).0 <= line <= ranges@[k].1;
                    assert(ranges@[k].0 <= line <= ranges@[k].1);
                }
            }
            if covers(ranges@, line) {
                let i = choose|i: int|
                    0 <= i < ranges@.len() && (#[trigger] ranges@[i]).0 <= line <= ranges@[i].1;
                if i < kept {
                    assert(merged@[i].0 <= line <= merged@[i].1);
                } else if i < rest {
                    assert(merged@[kept as int].0 <= line <= merged@[kept as int].1);
                } else {
                    assert(merged@[i - gap] == ranges@[i]);
                }
            }
            if start <= line <= end {
                assert(merged@[kept as int].0 <= line <= merged@[kept as int].1);
            }
        }
    }
    merged
}

/// The lines, in as few ranges as there can be.
pub fn numbered_ranges(lines: &Vec<u64>) -> (ranges: Vec<(u64, u64)>)
    ensures
        divides(ranges@, lines@.to_set()),
        ranges@ == ranges_of(lines@.to_set()),
{
    let mut ranges: Vec<(u64, u64)> = Vec::new();
    let mut place: usize = 0;
    while place < lines.len()
        invariant
            place <= lines@.len(),
            separated(ranges@),
            forall|line: u64|
                #[trigger] covers(ranges@, line) <==> lines@.take(place as int).contains(line),
        decreases lines@.len() - place,
    {
        let line = lines[place];
        let ghost before = ranges@;
        ranges = insert_range(&ranges, line, line);
        proof {
            let taken = lines@.take(place as int);
            let more = lines@.take(place + 1);
            assert(more =~= taken.push(line));
            assert forall|other: u64| #[trigger] covers(ranges@, other) <==> more.contains(
                other,
            ) by {
                assert(covers(before, other) <==> taken.contains(other));
                if taken.contains(other) {
                    let i = choose|i: int| 0 <= i < taken.len() && taken[i] == other;
                    assert(more[i] == other);
                }
                if other == line {
                    assert(more[place as int] == other);
                }
                if more.contains(other) {
                    let i = choose|i: int| 0 <= i < more.len() && more[i] == other;
                    if i < place {
                        assert(taken[i] == other);
                    }
                }
            }
        }
        place += 1;
    }
    proof {
        assert(lines@.take(place as int) =~= lines@);
        let all = lines@.to_set();
        assert forall|line: u64| #[trigger] covers(ranges@, line) <==> all.contains(line) by {
            assert(covers(ranges@, line) <==> lines@.take(place as int).contains(line));
        }
        lemma_ranges_of(ranges@, all);
    }
    ranges
}

proof fn lemma_ranges_of(ranges: Seq<(u64, u64)>, lines: Set<u64>)
    requires
        divides(ranges, lines),
    ensures
        ranges == ranges_of(lines),
{
    law_ranges_are_determined(ranges, ranges_of(lines), lines);
}

/// Ranges in any order, overlapping or not, with the same lines in as few ranges as there can be.
pub fn merge_numbered_ranges(ranges: &Vec<(u64, u64)>) -> (merged: Vec<(u64, u64)>)
    requires
        forall|i: int| 0 <= i < ranges@.len() ==> (#[trigger] ranges@[i]).0 <= ranges@[i].1,
    ensures
        divides(merged@, lines_in(ranges@)),
        merged@ == ranges_of(lines_in(ranges@)),
{
    let mut merged: Vec<(u64, u64)> = Vec::new();
    let mut place: usize = 0;
    while place < ranges.len()
        invariant
            place <= ranges@.len(),
            forall|i: int| 0 <= i < ranges@.len() ==> (#[trigger] ranges@[i]).0 <= ranges@[i].1,
            separated(merged@),
            forall|line: u64|
                #[trigger] covers(merged@, line) <==> covers(ranges@.take(place as int), line),
        decreases ranges@.len() - place,
    {
        let (start, end) = ranges[place];
        assert(ranges@[place as int].0 <= ranges@[place as int].1);
        let ghost before = merged@;
        merged = insert_range(&merged, start, end);
        proof {
            let taken = ranges@.take(place as int);
            let more = ranges@.take(place + 1);
            assert forall|line: u64| #[trigger] covers(merged@, line) <==> covers(more, line) by {
                assert(covers(before, line) <==> covers(taken, line));
                if covers(taken, line) {
                    let i = choose|i: int|
                        0 <= i < taken.len() && (#[trigger] taken[i]).0 <= line <= taken[i].1;
                    assert(more[i].0 <= line <= more[i].1);
                }
                if start <= line <= end {
                    assert(more[place as int].0 <= line <= more[place as int].1);
                }
                if covers(more, line) {
                    let i = choose|i: int|
                        0 <= i < more.len() && (#[trigger] more[i]).0 <= line <= more[i].1;
                    if i < place {
                        assert(taken[i].0 <= line <= taken[i].1);
                    }
                }
            }
        }
        place += 1;
    }
    proof {
        assert(ranges@.take(place as int) =~= ranges@);
        assert forall|line: u64| #[trigger] covers(merged@, line) <==> lines_in(ranges@).contains(
            line,
        ) by {
            assert(covers(merged@, line) <==> covers(ranges@.take(place as int), line));
        }
        lemma_ranges_of(merged@, lines_in(ranges@));
    }
    merged
}

/// What a model has seen of a file.
#[derive(Debug)]
pub struct FileEditScope {
    pub hash: String,
    pub ranges: Vec<(u64, u64)>,
    pub total_lines: u64,
    pub eof: bool,
}

/// What a model has seen of a file, as a value.
pub struct ScopeView {
    pub hash: Seq<char>,
    pub ranges: Seq<(u64, u64)>,
    pub total_lines: u64,
    pub eof: bool,
}

impl View for FileEditScope {
    type V = ScopeView;

    open spec fn view(&self) -> ScopeView {
        ScopeView {
            hash: self.hash@,
            ranges: self.ranges@,
            total_lines: self.total_lines,
            eof: self.eof,
        }
    }
}

/// What a model has seen of each file.
#[derive(Debug)]
pub struct FileEditScopeProjection {
    pub files: Vec<(String, FileEditScope)>,
}

/// What a model has seen of each file, as a value. Of the entries for one file the last one counts.
pub open spec fn files_view(files: Seq<(String, FileEditScope)>) -> Map<Seq<char>, ScopeView>
    decreases files.len(),
{
    if files.len() == 0 {
        Map::empty()
    } else {
        files_view(files.drop_last()).insert(files.last().0@, files.last().1@)
    }
}

impl View for FileEditScopeProjection {
    type V = Map<Seq<char>, ScopeView>;

    open spec fn view(&self) -> Map<Seq<char>, ScopeView> {
        files_view(self.files@)
    }
}

/// Whether the ranges of every file are in order.
pub open spec fn scopes_ok(files: Map<Seq<char>, ScopeView>) -> bool {
    forall|path: Seq<char>| #[trigger]
        files.dom().contains(path) ==> separated(files[path].ranges)
}

/// The details of a tool result as it is shown to a model.
pub open spec fn shown_detail(visible: JsonView) -> Option<JsonView> {
    match json_get(visible, "result"@) {
        Some(result) => match json_get(result, "detail"@) {
            Some(JsonView::Object(entries)) => Some(JsonView::Object(entries)),
            _ => None,
        },
        None => None,
    }
}

/// Whether the details show the whole of a line.
pub open spec fn shows_line(lines: JsonView, line: u64) -> bool {
    exists|key: Seq<char>|
        (json_text(#[trigger] json_get(lines, key)) is Some) && parsed_u64(key) == Some(line)
}

/// The lines that the details show as a whole.
pub open spec fn shown_lines(detail: JsonView) -> Set<u64> {
    match json_get(detail, "lines"@) {
        Some(lines) => Set::new(|line: u64| shows_line(lines, line)),
        None => Set::empty(),
    }
}

/// What a model has seen of a file after it was read: the lines seen before still count if the
/// file is the same.
pub open spec fn read_scope(before: Option<ScopeView>, hash: Seq<char>, detail: JsonView) -> ScopeView {
    let same_file = before matches Some(scope) && scope.hash == hash;
    let seen = if same_file {
        lines_in(before->0.ranges)
    } else {
        Set::empty()
    };
    let total_lines = match json_u64(json_get(detail, "total_lines"@)) {
        Some(number) => number,
        None => 0,
    };
    let at_end = json_bool(json_get(detail, "eof"@)) == Some(true);
    ScopeView {
        hash,
        ranges: ranges_of(seen.union(shown_lines(detail))),
        total_lines,
        eof: (same_file && before->0.eof) || total_lines == 0 || (at_end && shown_lines(
            detail,
        ).contains(total_lines)),
    }
}

/// Ranges as they are shown to a model.
pub open spec fn ranges_view(ranges: Seq<(u64, u64)>) -> JsonView {
    JsonView::Array(
        Seq::new(
            ranges.len(),
            |i: int|
                JsonView::Object(
                    Map::empty().insert("start_line"@, JsonView::Integer(ranges[i].0 as int)).insert(
                        "end_line"@,
                        JsonView::Integer(ranges[i].1 as int),
                    ),
                ),
        ),
    )
}

/// A tool result with the ranges that may be edited.
pub open spec fn with_editable(visible: JsonView, ranges: JsonView) -> JsonView {
    let result = json_get(visible, "result"@)->0;
    let detail = shown_detail(visible)->0;
    JsonView::Object(
        visible->Object_0.insert(
            "result"@,
            JsonView::Object(
                result->Object_0.insert(
                    "detail"@,
                    JsonView::Object(detail->Object_0.insert("editable_ranges"@, ranges)),
                ),
            ),
        ),
    )
}

/// The path in the arguments of a tool call.
pub open spec fn argument_path(arguments: Option<JsonView>) -> Option<Seq<char>> {
    match json_text(json_in(arguments, "path"@)) {
        Some(path) => Some(without_dot_prefix(forward_slashes(path))),
        None => None,
    }
}

/// Whether the tool changes the file that it is called for.
pub open spec fn changes_file(name: Seq<char>) -> bool {
    ||| name == "File.Edit"@
    ||| name == "File.EditBytes"@
    ||| name == "File.Append"@
    ||| name == "File.Replace"@
    ||| name == "File.Move"@
    ||| name == "File.Delete"@
    ||| name == "File.Create"@
}

/// The files without one of them.
pub open spec fn without_file(files: Map<Seq<char>, ScopeView>, path: Option<Seq<char>>) -> Map<
    Seq<char>,
    ScopeView,
> {
    match path {
        Some(found) => files.remove(found),
        None => files,
    }
}

/// The files after a tool result that read none: what was seen of a changed file no longer counts.
pub open spec fn after_change(
    files: Map<Seq<char>, ScopeView>,
    name: Seq<char>,
    arguments: Option<JsonView>,
    succeeded: bool,
    visible: JsonView,
) -> Map<Seq<char>, ScopeView> {
    let detail = shown_detail(visible);
    let path = match json_text(json_in(detail, "path"@)) {
        Some(path) => Some(path),
        None => argument_path(arguments),
    };
    let stale = name == "File.Edit"@ && json_text(json_in(json_in(detail, "error"@), "code"@))
        == Some("stale_read"@);
    let changed = if (succeeded && changes_file(name)) || stale {
        without_file(files, path)
    } else {
        files
    };
    if succeeded && (name == "File.Move"@ || name == "File.Copy"@) {
        without_file(changed, json_text(json_in(detail, "destination"@)))
    } else {
        changed
    }
}

/// The files after a tool result, and the result as it is shown to a model.
pub open spec fn after_result(
    files: Map<Seq<char>, ScopeView>,
    name: Seq<char>,
    arguments: Option<JsonView>,
    succeeded: bool,
    visible: JsonView,
) -> (Map<Seq<char>, ScopeView>, JsonView) {
    if name == "File.Read"@ && succeeded {
        match shown_detail(visible) {
            None => (files, visible),
            Some(detail) => match (
                json_text(json_get(detail, "path"@)),
                json_text(json_get(detail, "hash"@)),
            ) {
                (Some(path), Some(hash)) => {
                    let before = if files.dom().contains(path) {
                        Some(files[path])
                    } else {
                        None
                    };
                    let scope = read_scope(before, hash, detail);
                    (
                        files.insert(path, scope),
                        with_editable(visible, ranges_view(scope.ranges)),
                    )
                },
                _ => (files, visible),
            },
        }
    } else {
        (after_change(files, name, arguments, succeeded, visible), visible)
    }
}

proof fn lemma_files_prefix(files: Seq<(String, FileEditScope)>, place: int, key: Seq<char>)
    requires
        0 <= place <= files.len(),
        forall|i: int| place <= i < files.len() ==> (#[trigger] files[i]).0@ != key,
    ensures
        files_view(files).dom().contains(key) == files_view(files.take(place)).dom().contains(key),
        files_view(files).dom().contains(key) ==> files_view(files)[key] == files_view(
            files.take(place),
        )[key],
    decreases files.len() - place,
{
    if place == files.len() {
        assert(files.take(place) =~= files);
    } else {
        lemma_files_prefix(files, place + 1, key);
        assert(files.take(place + 1).drop_last() =~= files.take(place));
        assert(files[place].0@ != key);
    }
}

fn copy_ranges(ranges: &Vec<(u64, u64)>) -> (copy: Vec<(u64, u64)>)
    ensures
        copy@ == ranges@,
{
    let mut copy: Vec<(u64, u64)> = Vec::new();
    append_ranges(&mut copy, ranges);
    assert(copy@ =~= ranges@);
    copy
}

fn append_ranges(list: &mut Vec<(u64, u64)>, ranges: &Vec<(u64, u64)>)
    ensures
        final(list)@ == old(list)@ + ranges@,
{
    let mut place: usize = 0;
    while place < ranges.len()
        invariant
            place <= ranges@.len(),
            list@ == old(list)@ + ranges@.take(place as int),
        decreases ranges@.len() - place,
    {
        assert(ranges@.take(place + 1) =~= ranges@.take(place as int).push(ranges@[place as int]));
        list.push(ranges[place]);
        place += 1;
    }
    assert(ranges@.take(place as int) =~= ranges@);
}

fn ranges_value(ranges: &Vec<(u64, u64)>) -> (value: Json)
    ensures
        value@ == ranges_view(ranges@),
{
    broadcast use lemma_array_items;

    let mut items: Vec<Json> = Vec::new();
    let mut place: usize = 0;
    let ghost all = ranges_view(ranges@)->Array_0;
    while place < ranges.len()
        invariant
            place <= ranges@.len(),
            all == ranges_view(ranges@)->Array_0,
            all.len() == ranges@.len(),
            array_view(items@) == all.take(place as int),
        decreases ranges@.len() - place,
    {
        let item = Json::object().with("start_line", Json::Unsigned(ranges[place].0)).with(
            "end_line",
            Json::Unsigned(ranges[place].1),
        );
        proof {
            lemma_array_push(items@, item);
            assert(all.take(place + 1) =~= all.take(place as int).push(all[place as int]));
        }
        items.push(item);
        place += 1;
    }
    assert(all.take(place as int) =~= all);
    Json::Array(items)
}

fn read_lines(lines: &Json) -> (list: Vec<u64>)
    ensures
        list@.to_set() == Set::new(|line: u64| shows_line(lines@, line)),
{
    let mut list: Vec<u64> = Vec::new();
    let ghost owed = Set::new(|line: u64| shows_line(lines@, line));
    if let Json::Object(entries) = lines {
        let mut place: usize = 0;
        while place < entries.len()
            invariant
                place <= entries@.len(),
                *lines == Json::Object(*entries),
                forall|line: u64|
                    #[trigger] list@.contains(line) ==> shows_line(lines@, line),
                forall|i: int|
                    0 <= i < place ==> {
                        let key = (#[trigger] entries@[i]).0@;
                        json_text(json_get(lines@, key)) is Some ==> match parsed_u64(key) {
                            Some(line) => list@.contains(line),
                            None => true,
                        }
                    },
            decreases entries@.len() - place,
        {
            let key = entries[place].0.as_str();
            let ghost before = list@;
            if lines.text_at(key).is_some() {
                if let Some(line) = parse_u64(key) {
                    list.push(line);
                    proof {
                        assert(list@[before.len() as int] == line);
                        assert(json_text(json_get(lines@, key@)) is Some);
                        assert forall|other: u64| #[trigger] list@.contains(other) implies
                            shows_line(lines@, other) by {
                            if other != line {
                                let i = choose|i: int| 0 <= i < list@.len() && list@[i] == other;
                                assert(before[i] == other);
                                assert(before.contains(other));
                            }
                        }
                        assert forall|other: u64| before.contains(other) implies list@.contains(
                            other,
                        ) by {
                            let i = choose|i: int| 0 <= i < before.len() && before[i] == other;
                            assert(list@[i] == other);
                        }
                    }
                }
            }
            place += 1;
        }
        proof {
            assert forall|line: u64| owed.contains(line) implies #[trigger] list@.contains(
                line,
            ) by {
                let key = choose|key: Seq<char>|
                    (json_text(#[trigger] json_get(lines@, key)) is Some) && parsed_u64(key)
                        == Some(line);
                crate::json::lemma_object_key(entries@, key);
                let i = choose|i: int|
                    0 <= i < entries@.len() && (#[trigger] entries@[i]).0@ == key;
                assert(entries@[i].0@ == key);
            }
        }
    } else {
        assert forall|line: u64| !owed.contains(line) by {
            if shows_line(lines@, line) {
                let key = choose|key: Seq<char>|
                    (json_text(#[trigger] json_get(lines@, key)) is Some) && parsed_u64(key)
                        == Some(line);
                assert(json_get(lines@, key) is None);
            }
        }
    }
    assert(list@.to_set() =~= owed);
    list
}

fn shown_lines_of(detail: &Json) -> (list: Vec<u64>)
    ensures
        list@.to_set() == shown_lines(detail@),
{
    match detail.get("lines") {
        Some(lines) => read_lines(lines),
        None => {
            let list: Vec<u64> = Vec::new();
            assert(list@.to_set() =~= shown_lines(detail@));
            list
        },
    }
}

fn has_line(lines: &Vec<u64>, line: u64) -> (found: bool)
    ensures
        found == lines@.to_set().contains(line),
{
    let mut place: usize = 0;
    while place < lines.len()
        invariant
            place <= lines@.len(),
            forall|i: int| 0 <= i < place ==> lines@[i] != line,
        decreases lines@.len() - place,
    {
        if lines[place] == line {
            assert(lines@.contains(line));
            return true;
        }
        place += 1;
    }
    assert(!lines@.contains(line));
    false
}

fn detail_of(visible: &Json) -> (detail: Option<&Json>)
    ensures
        json_maybe(detail) == shown_detail(visible@),
{
    match get_in(visible.get("result"), "detail") {
        Some(detail) => if detail.is_object() {
            Some(detail)
        } else {
            None
        },
        None => None,
    }
}

/// The path in the arguments of a tool call, once they are read.
pub fn path_in_arguments(arguments: &Option<Json>) -> (path: Option<String>)
    ensures
        match path {
            Some(found) => argument_path(
                match *arguments {
                    Some(json) => Some(json@),
                    None => None,
                },
            ) == Some(found@),
            None => argument_path(
                match *arguments {
                    Some(json) => Some(json@),
                    None => None,
                },
            ) is None,
        },
{
    match arguments {
        Some(json) => match json.text_at("path") {
            Some(path) => Some(logical_path(path)),
            None => None,
        },
        None => None,
    }
}

/// The path in the arguments of a tool call.
pub fn tool_call_path(arguments: &str) -> (path: Option<String>)
    ensures
        match path {
            Some(found) => argument_path(json_read(arguments@)) == Some(found@),
            None => argument_path(json_read(arguments@)) is None,
        },
{
    let read = match parse_json(arguments) {
        Ok(json) => Some(json),
        Err(_) => None,
    };
    path_in_arguments(&read)
}

fn is_change(name: &str) -> (result: bool)
    ensures
        result == changes_file(name@),
{
    same(name, "File.Edit") || same(name, "File.EditBytes") || same(name, "File.Append") || same(
        name,
        "File.Replace",
    ) || same(name, "File.Move") || same(name, "File.Delete") || same(name, "File.Create")
}

impl FileEditScopeProjection {
    /// Nothing has been seen yet.
    pub fn new() -> (projection: FileEditScopeProjection)
        ensures
            projection@ == Map::<Seq<char>, ScopeView>::empty(),
            scopes_ok(projection@),
    {
        FileEditScopeProjection { files: Vec::new() }
    }

    fn find(&self, path: &str) -> (place: Option<usize>)
        ensures
            match place {
                Some(found) => {
                    &&& found < self.files@.len()
                    &&& self@.dom().contains(path@)
                    &&& self@[path@] == self.files@[found as int].1@
                },
                None => !self@.dom().contains(path@),
            },
    {
        let mut place: usize = self.files.len();
        while place > 0
            invariant
                place <= self.files@.len(),
                forall|i: int|
                    place <= i < self.files@.len() ==> (#[trigger] self.files@[i]).0@ != path@,
            decreases place,
        {
            place -= 1;
            if same(self.files[place].0.as_str(), path) {
                proof {
                    lemma_files_prefix(self.files@, place + 1, path@);
                    let head = self.files@.take(place + 1);
                    assert(head.last() == self.files@[place as int]);
                    assert(files_view(head).dom().contains(path@));
                }
                return Some(place);
            }
        }
        proof {
            lemma_files_prefix(self.files@, 0, path@);
            assert(self.files@.take(0) =~= Seq::<(String, FileEditScope)>::empty());
        }
        None
    }

    fn remove(&mut self, path: &str)
        ensures
            final(self)@ == old(self)@.remove(path@),
    {
        let mut files: Vec<(String, FileEditScope)> = Vec::new();
        let mut place: usize = 0;
        assert(self.files@.take(0) =~= Seq::<(String, FileEditScope)>::empty());
        assert(files_view(files@) =~= files_view(self.files@.take(0)).remove(path@));
        while place < self.files.len()
            invariant
                place <= self.files@.len(),
                *self == *old(self),
                files_view(files@) == files_view(self.files@.take(place as int)).remove(path@),
            decreases self.files@.len() - place,
        {
            let ghost taken = self.files@.take(place as int);
            let ghost before = files@;
            assert(self.files@.take(place + 1).drop_last() =~= taken);
            if !same(self.files[place].0.as_str(), path) {
                let scope = FileEditScope {
                    hash: self.files[place].1.hash.clone(),
                    ranges: copy_ranges(&self.files[place].1.ranges),
                    total_lines: self.files[place].1.total_lines,
                    eof: self.files[place].1.eof,
                };
                assert(scope@ == self.files@[place as int].1@);
                files.push((self.files[place].0.clone(), scope));
                assert(files@.drop_last() =~= before);
                assert(files_view(files@) =~= files_view(
                    self.files@.take(place + 1),
                ).remove(path@));
            } else {
                assert(files_view(files@) =~= files_view(
                    self.files@.take(place + 1),
                ).remove(path@));
            }
            place += 1;
        }
        assert(self.files@.take(place as int) =~= self.files@);
        self.files = files;
    }

    fn insert(&mut self, path: String, scope: FileEditScope)
        ensures
            final(self)@ == old(self)@.insert(path@, scope@),
    {
        self.remove(path.as_str());
        let ghost before = self.files@;
        self.files.push((path, scope));
        assert(self.files@.drop_last() =~= before);
        assert(self@ =~= old(self)@.insert(path@, scope@));
    }

    /// Takes note of a tool result. A file that was read counts as seen, and the result that is
    /// shown says which of its lines may be edited; a file that was changed no longer does.
    /// `arguments` is what the arguments of the call read as.
    pub fn apply_result(
        &mut self,
        call: &ToolCall,
        arguments: &Option<Json>,
        result: &ToolCallResult,
        visible: &mut Json,
    )
        requires
            scopes_ok(old(self)@),
        ensures
            scopes_ok(final(self)@),
            (final(self)@, final(visible)@) == after_result(
                old(self)@,
                call.name@,
                match *arguments {
                    Some(json) => Some(json@),
                    None => None,
                },
                result.state == ToolResultState::Succeeded,
                old(visible)@,
            ),
    {
        let succeeded = result.state == ToolResultState::Succeeded;
        let name = call.name.as_str();
        if same(name, "File.Read") && succeeded {
            self.apply_read(visible);
        } else {
            self.apply_change(name, arguments, succeeded, visible);
        }
    }

    fn apply_read(&mut self, visible: &mut Json)
        requires
            scopes_ok(old(self)@),
        ensures
            scopes_ok(final(self)@),
            (final(self)@, final(visible)@) == after_result(
                old(self)@,
                "File.Read"@,
                None,
                true,
                old(visible)@,
            ),
    {
        let mut detail = match detail_of(visible) {
            Some(detail) => detail.copy(),
            None => return ,
        };
        let path = match owned_text(detail.get("path")) {
            Some(path) => path,
            None => return ,
        };
        let hash = match owned_text(detail.get("hash")) {
            Some(hash) => hash,
            None => return ,
        };
        let total_lines = match detail.u64_at("total_lines") {
            Some(number) => number,
            None => 0,
        };
        let at_end = match detail.get("eof") {
            Some(value) => match value.as_bool() {
                Some(truth) => truth,
                None => false,
            },
            None => false,
        };
        let lines = shown_lines_of(&detail);
        let added = numbered_ranges(&lines);
        let ghost before = if self@.dom().contains(path@) {
            Some(self@[path@])
        } else {
            None
        };
        let mut ranges: Vec<(u64, u64)> = Vec::new();
        let mut eof = false;
        if let Some(place) = self.find(path.as_str()) {
            if same(self.files[place].1.hash.as_str(), hash.as_str()) {
                ranges = copy_ranges(&self.files[place].1.ranges);
                eof = self.files[place].1.eof;
            }
        }
        let ghost seen = ranges@;
        assert(separated(seen));
        append_ranges(&mut ranges, &added);
        proof {
            assert forall|i: int| 0 <= i < ranges@.len() implies (#[trigger] ranges@[i]).0
                <= ranges@[i].1 by {
                if i < seen.len() {
                    assert(seen[i].0 <= seen[i].1);
                } else {
                    assert(added@[i - seen.len()].0 <= added@[i - seen.len()].1);
                }
            }
            lemma_lines_in_sum(seen, added@, lines@.to_set());
        }
        let merged = merge_numbered_ranges(&ranges);
        if total_lines == 0 || (at_end && has_line(&lines, total_lines)) {
            eof = true;
        }
        let shown = ranges_value(&merged);
        let scope = FileEditScope { hash, ranges: merged, total_lines, eof };
        proof {
            let owed = read_scope(before, hash@, detail@);
            if before is Some && before->0.hash == hash@ {
                assert(lines_in(seen) == lines_in(before->0.ranges));
            } else {
                assert(lines_in(seen) =~= Set::<u64>::empty());
            }
            assert(scope@.ranges == owed.ranges);
            assert(scope@ == owed);
        }
        let ghost whole = visible@;
        detail.insert("editable_ranges", shown);
        if let Some(result) = visible.get("result") {
            let mut result = result.copy();
            result.insert("detail", detail);
            visible.insert("result", result);
        }
        assert(visible@ == with_editable(whole, ranges_view(scope@.ranges)));
        self.insert(path, scope);
        assert(scopes_ok(self@)) by {
            assert forall|other: Seq<char>| #[trigger] self@.dom().contains(other) implies
                separated(self@[other].ranges) by {
                if other != path@ {
                    assert(old(self)@.dom().contains(other));
                }
            }
        }
    }

    fn apply_change(
        &mut self,
        name: &str,
        arguments: &Option<Json>,
        succeeded: bool,
        visible: &Json,
    )
        requires
            scopes_ok(old(self)@),
        ensures
            scopes_ok(final(self)@),
            final(self)@ == after_change(
                old(self)@,
                name@,
                match *arguments {
                    Some(json) => Some(json@),
                    None => None,
                },
                succeeded,
                visible@,
            ),
    {
        let detail = detail_of(visible);
        let path = match owned_text(get_in(detail, "path")) {
            Some(path) => Some(path),
            None => path_in_arguments(arguments),
        };
        let stale = same(name, "File.Edit") && match crate::json::text_in(
            get_in(get_in(detail, "error"), "code"),
        ) {
            Some(code) => same(code, "stale_read"),
            None => false,
        };
        if (succeeded && is_change(name)) || stale {
            if let Some(path) = path {
                self.remove(path.as_str());
            }
        }
        if succeeded && (same(name, "File.Move") || same(name, "File.Copy")) {
            if let Some(destination) = crate::json::text_in(get_in(detail, "destination")) {
                self.remove(destination);
            }
        }
        assert(scopes_ok(self@)) by {
            assert forall|other: Seq<char>| #[trigger] self@.dom().contains(other) implies
                separated(self@[other].ranges) by {
                assert(old(self)@.dom().contains(other));
                assert(self@[other] == old(self)@[other]);
            }
        }
    }

    /// The ranges of the file that may be edited, if any of it has been seen.
    pub fn ranges_of_file(&self, path: &str) -> (ranges: Option<Json>)
        ensures
            match ranges {
                Some(value) => self@.dom().contains(path@) && value@ == ranges_view(
                    self@[path@].ranges,
                ),
                None => !self@.dom().contains(path@),
            },
    {
        match self.find(path) {
            Some(place) => Some(ranges_value(&self.files[place].1.ranges)),
            None => None,
        }
    }

    /// What a model has seen of the file, as it is handed to the tool that edits it.
    pub fn scope_value(&self, path: &str) -> (value: Json)
        ensures
            value@ == (if self@.dom().contains(path@) {
                scope_view(path@, self@[path@])
            } else {
                JsonView::Null
            }),
    {
        match self.find(path) {
            Some(place) => {
                let scope = &self.files[place].1;
                Json::object().with("path", Json::text(path)).with(
                    "hash",
                    Json::text(scope.hash.as_str()),
                ).with("ranges", ranges_value(&scope.ranges)).with(
                    "total_lines",
                    Json::Unsigned(scope.total_lines),
                ).with("eof", Json::Bool(scope.eof))
            },
            None => Json::Null,
        }
    }
}

/// What a model has seen of a file, as it is handed to the tool that edits it.
pub open spec fn scope_view(path: Seq<char>, scope: ScopeView) -> JsonView {
    JsonView::Object(
        Map::empty().insert("path"@, JsonView::Text(path)).insert(
            "hash"@,
            JsonView::Text(scope.hash),
        ).insert("ranges"@, ranges_view(scope.ranges)).insert(
            "total_lines"@,
            JsonView::Integer(scope.total_lines as int),
        ).insert("eof"@, JsonView::Bool(scope.eof)),
    )
}

proof fn lemma_lines_in_sum(seen: Seq<(u64, u64)>, added: Seq<(u64, u64)>, lines: Set<u64>)
    requires
        divides(added, lines),
    ensures
        lines_in(seen + added) == lines_in(seen).union(lines),
{
    let sum = seen + added;
    assert forall|line: u64| #[trigger] covers(sum, line) <==> covers(seen, line) || lines.contains(
        line,
    ) by {
        assert(covers(added, line) <==> lines.contains(line));
        if covers(sum, line) {
            let i = choose|i: int| 0 <= i < sum.len() && (#[trigger] sum[i]).0 <= line <= sum[i].1;
            if i < seen.len() {
                assert(seen[i].0 <= line <= seen[i].1);
            } else {
                assert(added[i - seen.len()].0 <= line <= added[i - seen.len()].1);
            }
        }
        if covers(seen, line) {
            let i = choose|i: int|
                0 <= i < seen.len() && (#[trigger] seen[i]).0 <= line <= seen[i].1;
            assert(sum[i].0 <= line <= sum[i].1);
        }
        if covers(added, line) {
            let i = choose|i: int|
                0 <= i < added.len() && (#[trigger] added[i]).0 <= line <= added[i].1;
            assert(sum[i + seen.len()].0 <= line <= sum[i + seen.len()].1);
        }
    }
    assert(lines_in(sum) =~= lines_in(seen).union(lines));
}

/// A model may edit the lines of a file that it has just been shown, and those that it was shown of
/// the same content before, and no others.
pub proof fn law_only_lines_that_were_shown_may_be_edited(
    before: Option<ScopeView>,
    hash: Seq<char>,
    detail: JsonView,
    ranges: Seq<(u64, u64)>,
    line: u64,
)
    requires
        before matches Some(scope) ==> separated(scope.ranges),
        divides(
            ranges,
            (if before matches Some(scope) && scope.hash == hash {
                lines_in(before->0.ranges)
            } else {
                Set::empty()
            }).union(shown_lines(detail)),
        ),
    ensures
        read_scope(before, hash, detail).ranges == ranges,
        covers(read_scope(before, hash, detail).ranges, line) <==> shown_lines(detail).contains(line)
            || (before matches Some(scope) && scope.hash == hash && covers(scope.ranges, line)),
{
    let lines = (if before matches Some(scope) && scope.hash == hash {
        lines_in(before->0.ranges)
    } else {
        Set::<u64>::empty()
    }).union(shown_lines(detail));
    lemma_ranges_of(ranges, lines);
    assert(covers(ranges, line) <==> lines.contains(line));
}

} // verus!
