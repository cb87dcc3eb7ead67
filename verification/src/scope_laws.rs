//! What can be relied on of what a model has seen of a file: which lines count as shown, when its end
//! was seen, how the ranges that it may edit are told, and which name a file goes by.
use vstd::prelude::*;

use crate::edit_scopes::known_path;
use crate::file_scope::{
    covers, ranges_view, read_scope, separated, shown_lines, shows_line, ScopeView,
};
use crate::json::{json_get, JsonView};
use crate::text::{decimal, forward_slashes, parsed_u64, without_dot_prefix};
use crate::text_laws::{
    begins_here, law_files_are_named_with_forward_slashes, law_here_is_not_part_of_a_name,
    law_numbers_are_read_again,
};

verus! {

/// A line counts as shown exactly if the details give its text under its number.
pub proof fn law_lines_are_shown_by_their_numbers(
    detail: JsonView,
    lines: JsonView,
    line: u64,
    text: Seq<char>,
)
    ensures
        json_get(detail, "lines"@) is None ==> !shown_lines(detail).contains(line),
        json_get(detail, "lines"@) == Some(lines) ==> (shown_lines(detail).contains(line)
            <==> exists|key: Seq<char>|
            parsed_u64(key) == Some(line) && (#[trigger] json_get(lines, key) matches Some(
                JsonView::Text(_),
            ))),
        json_get(detail, "lines"@) == Some(lines) && json_get(lines, decimal(line as nat)) == Some(
            JsonView::Text(text),
        ) ==> shown_lines(detail).contains(line),
{
    law_numbers_are_read_again(line, line);
    if json_get(detail, "lines"@) == Some(lines) {
        if shows_line(lines, line) {
            let key = choose|key: Seq<char>|
                (crate::json::json_text(#[trigger] json_get(lines, key)) is Some) && parsed_u64(key)
                    == Some(line);
            assert(json_get(lines, key) matches Some(JsonView::Text(_)));
        }
        if exists|key: Seq<char>|
            parsed_u64(key) == Some(line) && (#[trigger] json_get(lines, key) matches Some(
                JsonView::Text(_),
            )) {
            let key = choose|key: Seq<char>|
                parsed_u64(key) == Some(line) && (#[trigger] json_get(lines, key) matches Some(
                    JsonView::Text(_),
                ));
            assert(crate::json::json_text(json_get(lines, key)) is Some);
            assert(shows_line(lines, line));
        }
        if json_get(lines, decimal(line as nat)) == Some(JsonView::Text(text)) {
            assert(crate::json::json_text(json_get(lines, decimal(line as nat))) is Some);
            assert(shows_line(lines, line));
        }
    }
}

/// Ranges are as long as they can be: the line behind one and the line before one belong to none.
pub proof fn law_ranges_do_not_touch(ranges: Seq<(u64, u64)>, place: int)
    requires
        separated(ranges),
        0 <= place < ranges.len(),
    ensures
        ranges[place].0 <= ranges[place].1,
        covers(ranges, ranges[place].0),
        covers(ranges, ranges[place].1),
        ranges[place].1 < u64::MAX ==> !covers(ranges, (ranges[place].1 + 1) as u64),
        ranges[place].0 > 0 ==> !covers(ranges, (ranges[place].0 - 1) as u64),
{
    assert(ranges[place].0 <= ranges[place].1);
    if ranges[place].1 < u64::MAX && covers(ranges, (ranges[place].1 + 1) as u64) {
        let line = (ranges[place].1 + 1) as u64;
        let i = choose|i: int|
            0 <= i < ranges.len() && (#[trigger] ranges[i]).0 <= line <= ranges[i].1;
        if i < place {
            assert(ranges[i].1 + 1 < ranges[place].0);
        } else if place < i {
            assert(ranges[place].1 + 1 < ranges[i].0);
        }
    }
    if ranges[place].0 > 0 && covers(ranges, (ranges[place].0 - 1) as u64) {
        let line = (ranges[place].0 - 1) as u64;
        let i = choose|i: int|
            0 <= i < ranges.len() && (#[trigger] ranges[i]).0 <= line <= ranges[i].1;
        if i < place {
            assert(ranges[i].1 + 1 < ranges[place].0);
        } else if place < i {
            assert(ranges[place].1 + 1 < ranges[i].0);
        }
    }
}

/// The end of a file has been seen exactly if it had been seen of the same content before, if the file
/// has no lines, or if its last line was shown as the end.
pub proof fn law_ends_of_files_are_seen(
    before: Option<ScopeView>,
    hash: Seq<char>,
    detail: JsonView,
    total: u64,
)
    requires
        json_get(detail, "total_lines"@) == Some(JsonView::Integer(total as int)),
    ensures
        read_scope(before, hash, detail).hash == hash,
        read_scope(before, hash, detail).total_lines == total,
        total == 0 ==> read_scope(before, hash, detail).eof,
        before matches Some(scope) ==> (scope.hash == hash && scope.eof ==> read_scope(
            before,
            hash,
            detail,
        ).eof),
        json_get(detail, "eof"@) == Some(JsonView::Bool(true)) && shown_lines(detail).contains(total)
            ==> read_scope(before, hash, detail).eof,
        total > 0 && !(before matches Some(scope) && scope.hash == hash && scope.eof) && !(json_get(
            detail,
            "eof"@,
        ) == Some(JsonView::Bool(true)) && shown_lines(detail).contains(total)) ==> !read_scope(
            before,
            hash,
            detail,
        ).eof,
{
}

/// Ranges are told in their order, each with its first and its last line.
pub proof fn law_ranges_are_told(ranges: Seq<(u64, u64)>, place: int)
    requires
        0 <= place < ranges.len(),
    ensures
        ranges_view(ranges) matches JsonView::Array(items) && items.len() == ranges.len()
            && json_get(items[place], "start_line"@) == Some(
            JsonView::Integer(ranges[place].0 as int),
        ) && json_get(items[place], "end_line"@) == Some(JsonView::Integer(ranges[place].1 as int)),
{
    reveal_strlit("start_line");
    reveal_strlit("end_line");
    assert("start_line"@.len() == 10 && "end_line"@.len() == 8);
}

/// A file goes by the path that the file system gives. Where it gives none it goes by the one that was
/// asked for, with forward slashes and not from where one is, so that one file has one name.
pub proof fn law_files_go_by_one_name(asked: Seq<char>, given: Seq<char>)
    ensures
        known_path(Some(given), asked) == given,
        !known_path(None, asked).contains('\\'),
        !begins_here(known_path(None, asked)),
        known_path(None, seq!['.', '/'] + asked) == known_path(None, asked),
        !asked.contains('\\') && !begins_here(asked) ==> known_path(None, asked) == asked,
{
    let path = forward_slashes(asked);
    law_here_is_not_part_of_a_name(path);
    let kept = without_dot_prefix(path);
    assert forall|i: int| 0 <= i < path.len() implies path[i] != '\\' by {
        law_files_are_named_with_forward_slashes(asked, i);
    }
    let start = path.len() - kept.len();
    assert forall|i: int| 0 <= i < kept.len() implies kept[i] != '\\' by {
        assert(kept[i] == path[start + i]);
    }
    let longer = seq!['.', '/'] + asked;
    assert(forward_slashes(longer) =~= seq!['.', '/'] + path);
    if !asked.contains('\\') && !begins_here(asked) {
        assert forall|i: int| 0 <= i < asked.len() implies path[i] == asked[i] by {
            assert(asked.contains(asked[i]));
        }
        assert(path =~= asked);
    }
}

} // verus!
