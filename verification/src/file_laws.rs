//! What holds of a file over the calls that show it.

use vstd::prelude::*;
use crate::agent_log_layout::AgentLogLayout;
use crate::code_lines::{number_columns, token_spans, token_views, tokens_end, TokenView};
use crate::expanded::{
    body_shows, content_shows, expanded_rows, is_kept_log, is_used, kept_key,
    law_resized_files_keep_their_layout, retitled, reusable, text_metrics, view_shown,
    ExpandedTextBody, ExpandedTextCacheKey, ExpandedTextContent, ExpandedTextRenderCache,
};
use crate::expanded_content::titled;
use crate::file_rows::{
    all_token_views, lemma_source_len, line_at, line_ranges, line_start, prepared, row_part,
    source_of, wrap_count, FileView, HighlightedLine,
};
use crate::file_views::{file_content_width, file_lines, file_row, margin, HighlightedFileRows};
use crate::list::{max, min};
use crate::render::{decimal, lemma_wrap_rows_some, wrap_rows};
use crate::single_line_input::{
    clusters_fitting, lemma_clusters_fitting, lemma_fitting_bounded, widths,
};
use crate::style::{line_views, raw_line, LineView, SpanView};
use crate::unicode::{display_width, grapheme_clusters, joined};

verus! {

/// Whether a content is a file, laid out for a width.
pub open spec fn lays_out_file(
    content: ExpandedTextContent,
    path: Seq<char>,
    size: Seq<char>,
    lines: Seq<HighlightedLine>,
    width: int,
) -> bool {
    &&& line_views(content.header@) == titled(
        "File"@,
        Some(raw_line(path)),
        seq![raw_line(decimal(lines.len()) + " lines"@), raw_line(size)],
        width,
    )
    &&& !content.inset
    &&& content.body matches ExpandedTextBody::HighlightedFile(file) && is_file(file, lines, width)
}

/// Whether a file is laid out for a width, and nothing of it was shown yet.
pub open spec fn is_file(
    file: HighlightedFileRows,
    lines: Seq<HighlightedLine>,
    width: int,
) -> bool {
    &&& file.rows@ == file_for(lines, width)
    &&& file.number_width == number_columns(lines.len() as int)
    &&& file.cache is None
}

/// The lines of a file, wrapped to what a width leaves beside their numbers.
pub open spec fn file_for(lines: Seq<HighlightedLine>, width: int) -> FileView {
    FileView::of(all_token_views(lines), file_content_width(lines.len() as int, width))
}

/// The text of the first line, as it is shown.
pub open spec fn first_line(lines: Seq<HighlightedLine>) -> Seq<char> {
    source_of(prepared(token_views(lines[0].tokens@)))
}

/// How much of the first line stands on its first row.
pub open spec fn first_row_end(lines: Seq<HighlightedLine>, width: int) -> int {
    line_ranges(
        token_views(lines[0].tokens@),
        file_content_width(lines.len() as int, width),
    )[0].1 as int
}

proof fn lemma_starts_positive(lines: Seq<Seq<TokenView>>, width: int, count: int)
    requires
        1 <= count <= lines.len(),
    ensures
        1 <= line_start(lines, width, count) <= usize::MAX,
    decreases count,
{
    lemma_wrap_rows_some(source_of(prepared(lines[count - 1])), max(width, 1));
    assert(wrap_count(lines[count - 1], width) >= 1);
    if count > 1 {
        lemma_starts_positive(lines, width, count - 1);
    } else {
        assert(line_start(lines, width, 0) == 0);
    }
}

proof fn lemma_first_line_found(file: FileView, lines: Seq<Seq<TokenView>>, count: int)
    requires
        file == FileView::of(lines, file.width),
        1 <= count <= lines.len(),
    ensures
        line_at(file.starts, 0, count) == 0,
    decreases count,
{
    if count > 1 {
        lemma_starts_positive(lines, file.width, count - 1);
        lemma_first_line_found(file, lines, count - 1);
    }
}

/// A window from the start of a file on starts with the first row of the first line.
proof fn lemma_window_starts(file: FileView, lines: Seq<Seq<TokenView>>, capacity: int)
    requires
        file == FileView::of(lines, file.width),
        lines.len() > 0,
        capacity > 0,
    ensures
        file.len() > 0,
        file.window(0, capacity).len() > 0,
        file.window(0, capacity)[0] == row_part(0, 0, line_ranges(lines[0], file.width)[0]),
{
    lemma_starts_positive(lines, file.width, lines.len() as int);
    lemma_first_line_found(file, lines, lines.len() as int);
    lemma_wrap_rows_some(source_of(prepared(lines[0])), max(file.width, 1));
}

/// What is shown of a file that nothing was shown of yet: its first row stands below the
/// header, and the rows depend on the file and the header alone.
proof fn lemma_file_shown(
    shown: ExpandedTextContent,
    after: ExpandedTextContent,
    lines: Seq<HighlightedLine>,
    width: int,
    viewport_rows: int,
    panel_rows: int,
    rows: Seq<LineView>,
) -> (visible: Seq<LineView>)
    requires
        lines.len() > 0,
        1 <= viewport_rows <= usize::MAX,
        4 <= panel_rows <= usize::MAX,
        shown.header@.len() == 2,
        !shown.inset,
        shown.body matches ExpandedTextBody::HighlightedFile(file) && is_file(file, lines, width),
        content_shows(shown, after, 0, viewport_rows, panel_rows, rows),
    ensures
        rows.len() > 2,
        rows[2] == file_row(
            file_for(lines, width),
            row_part(
                0,
                0,
                line_ranges(
                    token_views(lines[0].tokens@),
                    file_content_width(lines.len() as int, width),
                )[0],
            ),
            number_columns(lines.len() as int),
        ),
        rows == expanded_rows(
            line_views(shown.header@),
            file_for(lines, width).len(),
            visible,
            false,
            0,
            viewport_rows,
            panel_rows,
        ),
        visible == file_rows_shown(lines, width, viewport_rows, panel_rows),
{
    let file = shown.body->HighlightedFile_0;
    let view = file_for(lines, width);
    let all = all_token_views(lines);
    let metrics = text_metrics(2, view.len(), viewport_rows, panel_rows);
    let visible = choose|visible: Seq<LineView>|
        #[trigger] body_shows(shown.body, after.body, 0, metrics.0, visible)
            && rows == expanded_rows(
            line_views(shown.header@),
            view.len(),
            visible,
            shown.inset,
            0,
            viewport_rows,
            panel_rows,
        );
    lemma_starts_positive(all, view.width, all.len() as int);
    let end = min(metrics.0, view.len());
    let last = min(end + margin(metrics.0), view.len());
    lemma_window_starts(view, all, last);
    assert(all[0] == token_views(lines[0].tokens@));
    assert(line_views(shown.header@).len() == 2);
    assert(visible =~= file_rows_shown(lines, width, viewport_rows, panel_rows));
    visible
}

/// The rows of the body of a file that are shown first.
pub open spec fn file_rows_shown(
    lines: Seq<HighlightedLine>,
    width: int,
    viewport_rows: int,
    panel_rows: int,
) -> Seq<LineView> {
    let view = file_for(lines, width);
    let capacity = text_metrics(2, view.len(), viewport_rows, panel_rows).0;
    let end = min(capacity, view.len());
    let last = min(end + margin(capacity), view.len());
    file_lines(
        view,
        view.window(0, last),
        number_columns(lines.len() as int),
    ).subrange(0, end)
}

/// The characters of some spans.
pub open spec fn characters(spans: Seq<SpanView>) -> int
    decreases spans.len(),
{
    if spans.len() == 0 {
        0
    } else {
        characters(spans.drop_last()) + spans.last().text.len()
    }
}

proof fn lemma_characters(tokens: Seq<TokenView>, count: int, end: int)
    requires
        0 <= count <= tokens.len(),
        0 <= end,
    ensures
        characters(token_spans(tokens, count, 0, end, true)) == min(
            end,
            tokens_end(tokens, count),
        ),
        tokens_end(tokens, count) >= 0,
    decreases count,
{
    if count > 0 {
        lemma_characters(tokens, count - 1, end);
        let before = token_spans(tokens, count - 1, 0, end, true);
        let spans = token_spans(tokens, count, 0, end, true);
        if spans != before {
            assert(spans.drop_last() =~= before);
        }
    }
}

/// Rows that show different parts of the first line differ.
proof fn lemma_first_rows_differ(lines: Seq<HighlightedLine>, narrow: int, wide: int, columns: int)
    requires
        lines.len() > 0,
        first_row_end(lines, narrow) < first_row_end(lines, wide) <= first_line(lines).len(),
    ensures
        ({
            let tokens = token_views(lines[0].tokens@);
            let short = line_ranges(tokens, file_content_width(lines.len() as int, narrow))[0];
            let long = line_ranges(tokens, file_content_width(lines.len() as int, wide))[0];
            file_row(file_for(lines, narrow), row_part(0, 0, short), columns) != file_row(
                file_for(lines, wide),
                row_part(0, 0, long),
                columns,
            )
        }),
{
    let tokens = token_views(lines[0].tokens@);
    let shown = prepared(tokens);
    let count = tokens.len() as int;
    let first = file_row(
        file_for(lines, narrow),
        row_part(
            0,
            0,
            line_ranges(tokens, file_content_width(lines.len() as int, narrow))[0],
        ),
        columns,
    ).spans;
    let second = file_row(
        file_for(lines, wide),
        row_part(0, 0, line_ranges(tokens, file_content_width(lines.len() as int, wide))[0]),
        columns,
    ).spans;
    assert(all_token_views(lines)[0] == tokens);
    lemma_first_range(tokens, file_content_width(lines.len() as int, narrow));
    lemma_first_range(tokens, file_content_width(lines.len() as int, wide));
    lemma_characters(shown, count, first_row_end(lines, narrow));
    lemma_characters(shown, count, first_row_end(lines, wide));
    lemma_source_len(shown, count);
    assert(shown.take(count) =~= shown);
    if first == second {
        assert(first.skip(1) =~= token_spans(
            shown,
            count,
            0,
            first_row_end(lines, narrow),
            true,
        ));
        assert(second.skip(1) =~= token_spans(shown, count, 0, first_row_end(lines, wide), true));
    }
}

proof fn lemma_first_range(tokens: Seq<TokenView>, width: int)
    ensures
        line_ranges(tokens, width).len() > 0,
        line_ranges(tokens, width)[0].0 == 0,
{
    lemma_wrap_rows_some(source_of(prepared(tokens)), max(width, 1));
}

/// Whether every layout that a function makes is that of a file.
pub open spec fn makes_file<F: FnOnce(AgentLogLayout) -> (ExpandedTextContent, AgentLogLayout)>(
    layout: F,
    path: Seq<char>,
    size: Seq<char>,
    lines: Seq<HighlightedLine>,
    width: int,
) -> bool {
    forall|agent: AgentLogLayout, made: (ExpandedTextContent, AgentLogLayout)| #[trigger]
        layout.ensures((agent,), made) ==> lays_out_file(made.0, path, size, lines, width)
}

/// A file that is laid out when it is shown shows its rows.
proof fn lemma_made_file_shown<F: FnOnce(AgentLogLayout) -> (ExpandedTextContent, AgentLogLayout)>(
    before: Option<ExpandedTextRenderCache>,
    after: Option<ExpandedTextRenderCache>,
    key: ExpandedTextCacheKey,
    layout: F,
    path: Seq<char>,
    size: Seq<char>,
    lines: Seq<HighlightedLine>,
    viewport_rows: int,
    panel_rows: int,
    rows: Seq<LineView>,
)
    requires
        !reusable(kept_key(before), key, false),
        makes_file(layout, path, size, lines, key.width as int),
        lines.len() > 0,
        1 <= viewport_rows <= usize::MAX,
        4 <= panel_rows <= usize::MAX,
        view_shown(
            before,
            after,
            key,
            false,
            layout,
            None,
            0,
            viewport_rows,
            panel_rows,
            rows,
        ),
    ensures
        rows.len() > 2,
        rows[2] == file_row(
            file_for(lines, key.width as int),
            row_part(
                0,
                0,
                line_ranges(
                    token_views(lines[0].tokens@),
                    file_content_width(lines.len() as int, key.width as int),
                )[0],
            ),
            number_columns(lines.len() as int),
        ),
        rows == expanded_rows(
            titled(
                "File"@,
                Some(raw_line(path)),
                seq![raw_line(decimal(lines.len()) + " lines"@), raw_line(size)],
                key.width as int,
            ),
            file_for(lines, key.width as int).len(),
            file_rows_shown(lines, key.width as int, viewport_rows, panel_rows),
            false,
            0,
            viewport_rows,
            panel_rows,
        ),
{
    let (used, shown) = choose|used: ExpandedTextContent, shown: ExpandedTextContent|
        {
            &&& #[trigger] is_used(before, key, false, layout, used, after->0.agent)
            &&& #[trigger] content_shows(
                shown,
                after->0.content,
                0,
                viewport_rows,
                panel_rows,
                rows,
            )
            &&& shown.body == used.body
            &&& shown.inset == used.inset
            &&& line_views(shown.header@) == retitled(line_views(used.header@), None)
            &&& after->0.content.header == shown.header
            &&& after->0.content.inset == shown.inset
        };
    let kept = choose|kept: AgentLogLayout|
        #[trigger] is_kept_log(before, kept) && layout.ensures(
            (kept,),
            (used, after->0.agent),
        );
    assert(layout.ensures((kept,), (used, after->0.agent)));
    assert(lays_out_file(used, path, size, lines, key.width as int));
    assert(line_views(shown.header@).len() == shown.header@.len());
    let visible = lemma_file_shown(
        shown,
        after->0.content,
        lines,
        key.width as int,
        viewport_rows,
        panel_rows,
        rows,
    );
}

/// A file whose first line does not fit into one row of the narrow layout, and goes on in
/// that row of the wide one, shows other rows once the divider is let go: those that it
/// shows when nothing of it was laid out before. While the divider is dragged, the rows
/// stay as they were.
pub proof fn law_released_files_are_laid_out_anew<
    F: FnOnce(AgentLogLayout) -> (ExpandedTextContent, AgentLogLayout),
    G: FnOnce(AgentLogLayout) -> (ExpandedTextContent, AgentLogLayout),
    H: FnOnce(AgentLogLayout) -> (ExpandedTextContent, AgentLogLayout),
    K: FnOnce(AgentLogLayout) -> (ExpandedTextContent, AgentLogLayout),
>(
    empty: Option<ExpandedTextRenderCache>,
    first: Option<ExpandedTextRenderCache>,
    second: Option<ExpandedTextRenderCache>,
    third: Option<ExpandedTextRenderCache>,
    fresh: Option<ExpandedTextRenderCache>,
    narrow: ExpandedTextCacheKey,
    wide: ExpandedTextCacheKey,
    layout: F,
    other: G,
    last: H,
    again: K,
    path: Seq<char>,
    size: Seq<char>,
    lines: Seq<HighlightedLine>,
    viewport_rows: int,
    panel_rows: int,
    initial: Seq<LineView>,
    dragging: Seq<LineView>,
    released: Seq<LineView>,
    afresh: Seq<LineView>,
)
    requires
        empty is None,
        narrow.source is File,
        wide.source == narrow.source,
        wide.width != narrow.width,
        lines.len() > 0,
        first_row_end(lines, narrow.width as int) < first_row_end(lines, wide.width as int)
            <= first_line(lines).len(),
        1 <= viewport_rows <= usize::MAX,
        4 <= panel_rows <= usize::MAX,
        makes_file(layout, path, size, lines, narrow.width as int),
        makes_file(last, path, size, lines, wide.width as int),
        makes_file(again, path, size, lines, wide.width as int),
        view_shown(
            empty,
            first,
            narrow,
            false,
            layout,
            None,
            0,
            viewport_rows,
            panel_rows,
            initial,
        ),
        view_shown(
            first,
            second,
            wide,
            true,
            other,
            None,
            0,
            viewport_rows,
            panel_rows,
            dragging,
        ),
        view_shown(
            second,
            third,
            wide,
            false,
            last,
            None,
            0,
            viewport_rows,
            panel_rows,
            released,
        ),
        view_shown(empty, fresh, wide, false, again, None, 0, viewport_rows, panel_rows, afresh),
    ensures
        dragging == initial,
        released != dragging,
        released == afresh,
{
    law_resized_files_keep_their_layout(
        empty,
        first,
        second,
        third,
        narrow,
        wide,
        layout,
        other,
        last,
        0,
        viewport_rows,
        panel_rows,
        initial,
        dragging,
        released,
    );
    lemma_made_file_shown(
        empty,
        first,
        narrow,
        layout,
        path,
        size,
        lines,
        viewport_rows,
        panel_rows,
        initial,
    );
    lemma_made_file_shown(
        second,
        third,
        wide,
        last,
        path,
        size,
        lines,
        viewport_rows,
        panel_rows,
        released,
    );
    lemma_made_file_shown(
        empty,
        fresh,
        wide,
        again,
        path,
        size,
        lines,
        viewport_rows,
        panel_rows,
        afresh,
    );
    lemma_first_rows_differ(
        lines,
        narrow.width as int,
        wide.width as int,
        number_columns(lines.len() as int),
    );
}

/// A first line that is wider than the narrow layout leaves, and fits into the wide one,
/// goes on in its first row there.
pub proof fn law_long_lines_wrap(lines: Seq<HighlightedLine>, narrow: int, wide: int)
    requires
        lines.len() > 0,
        first_line(lines).len() <= usize::MAX,
        joined(grapheme_clusters(first_line(lines))) == first_line(lines),
        ({
            let source = first_line(lines);
            let clusters = grapheme_clusters(source);
            let room = max(file_content_width(lines.len() as int, narrow), 1);
            &&& room < usize::MAX
            &&& display_width(source) <= max(file_content_width(lines.len() as int, wide), 1)
            &&& room < display_width(source)
            &&& room < widths(clusters)
            &&& forall|i: int|
                0 <= i < clusters.len() ==> display_width(#[trigger] clusters[i]) <= room
                    && clusters[i].len() > 0
        }),
    ensures
        first_row_end(lines, narrow) < first_row_end(lines, wide),
        first_row_end(lines, wide) == first_line(lines).len(),
{
    let source = first_line(lines);
    let clusters = grapheme_clusters(source);
    let room = max(file_content_width(lines.len() as int, narrow), 1);
    let count = clusters_fitting(clusters, 0, room);
    lemma_clusters_fitting(clusters, 0, room);
    lemma_fitting_bounded(clusters, 0, room);
    lemma_wrap_rows_some(source, room);
    if count == clusters.len() {
        assert(clusters.take(count) =~= clusters);
    }
    lemma_joined_shorter(clusters, count);
    assert(wrap_rows(source, room)[0].1 == joined(clusters.take(count)).len());
}

proof fn lemma_joined_shorter(parts: Seq<Seq<char>>, count: int)
    requires
        0 <= count < parts.len(),
        forall|i: int| 0 <= i < parts.len() ==> (#[trigger] parts[i]).len() > 0,
    ensures
        joined(parts.take(count)).len() < joined(parts).len(),
    decreases parts.len(),
{
    let before = parts.drop_last();
    if count < before.len() {
        assert forall|i: int| 0 <= i < before.len() implies (#[trigger] before[i]).len() > 0 by {
            assert(before[i] == parts[i]);
        }
        lemma_joined_shorter(before, count);
        assert(before.take(count) =~= parts.take(count));
    } else {
        assert(parts.take(count) =~= before);
    }
    assert(parts.last() == parts[parts.len() - 1]);
}

} // verus!
