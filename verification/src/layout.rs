//! The rows of a surface together with what a pointer meets on them.

use vstd::prelude::*;
use vstd::string::*;
use crate::list::{min, ListHit};
use crate::menu::less;
use crate::multiline_input::{text_columns, text_rows, MultilineInput};
use crate::scroll::{ScrollViewHit, ScrollViewLayout, ScrollViewMetrics};
use crate::single_line_input::{bounded_range, offset_at_display_column, InputView, SingleLineInput};
use crate::style::{capped, line_views, Line, LineView};
use crate::text::{lemma_ends_are_boundaries, offset, slice_of, slice_text};
use crate::unicode::{grapheme_clusters, graphemes};

verus! {

/// What a row of a surface is.
#[derive(Clone, Copy, Debug, PartialEq, Eq, Structural)]
pub enum SurfaceHit {
    Blank,
    List(ListHit),
    Scroll(ScrollViewHit),
    DirectoryItem(usize),
}

/// The rows that a scroll view takes in a surface, from `start` up to `end`, and
/// its geometry.
#[derive(Clone, Copy, Debug, PartialEq, Eq, Structural)]
pub struct SurfaceScrollRegion {
    pub start: usize,
    pub end: usize,
    pub metrics: ScrollViewMetrics,
}

/// An input that is shown on a row of a surface.
#[derive(Debug)]
#[allow(inconsistent_fields)]
pub enum SurfaceInputHit {
    Single { input: SingleLineInput, content_column: usize, bounded_width: Option<usize> },
    Masked {
        display: SingleLineInput,
        source_boundaries: Vec<usize>,
        content_column: usize,
        bounded_width: usize,
    },
    Multiline { input: MultilineInput, rendered_row: usize, content_column: usize, width: u16 },
}

/// An input that is shown on a row of a surface.
#[allow(inconsistent_fields)]
pub enum InputHitView {
    Single { input: InputView, content_column: int, bounded_width: Option<int> },
    Masked {
        display: InputView,
        source_boundaries: Seq<usize>,
        content_column: int,
        bounded_width: int,
    },
    Multiline { input: InputView, rendered_row: int, content_column: int, width: int },
}

impl View for SurfaceInputHit {
    type V = InputHitView;

    open spec fn view(&self) -> InputHitView {
        match *self {
            SurfaceInputHit::Single { input, content_column, bounded_width } => {
                InputHitView::Single {
                    input: input@,
                    content_column: content_column as int,
                    bounded_width: match bounded_width {
                        None => None,
                        Some(width) => Some(width as int),
                    },
                }
            },
            SurfaceInputHit::Masked {
                display,
                source_boundaries,
                content_column,
                bounded_width,
            } => InputHitView::Masked {
                display: display@,
                source_boundaries: source_boundaries@,
                content_column: content_column as int,
                bounded_width: bounded_width as int,
            },
            SurfaceInputHit::Multiline { input, rendered_row, content_column, width } => {
                InputHitView::Multiline {
                    input: input@,
                    rendered_row: rendered_row as int,
                    content_column: content_column as int,
                    width: width as int,
                }
            },
        }
    }
}

/// The boundary, as a byte offset, at a column of an input that is shown whole or
/// in a window of `width` columns.
pub open spec fn offset_at_column(input: InputView, column: int, width: Option<int>) -> int {
    match width {
        None => offset_at_display_column(input.text, column) as int,
        Some(width) => {
            let range = bounded_range(input.text, input.at, width);
            range.0 + offset_at_display_column(slice_of(input.text, range.0, range.1), column)
        },
    }
}

/// The boundary, as a byte offset, at a column of a row of an editor.
pub open spec fn offset_in_row(input: InputView, width: int, row: int, column: int) -> int {
    let rows = text_rows(input.text, 0, text_columns(width));
    if row < rows.len() {
        offset(input.text, rows[row].0 as int) as int + offset_at_display_column(
            input.text.subrange(rows[row].0 as int, rows[row].1 as int),
            column,
        )
    } else {
        input.cursor() as int
    }
}

/// The entry at an index, or else the last one, or else nothing.
pub open spec fn entry_or_last(bounds: Seq<usize>, index: int) -> int {
    if index < bounds.len() {
        bounds[index] as int
    } else if bounds.len() > 0 {
        bounds.last() as int
    } else {
        0
    }
}

impl InputHitView {
    /// The cursor, as a byte offset, that a column of the surface stands for.
    pub open spec fn cursor_at(self, column: int) -> int {
        match self {
            InputHitView::Single { input, content_column, bounded_width } => offset_at_column(
                input,
                less(column, content_column),
                bounded_width,
            ),
            InputHitView::Multiline { input, rendered_row, content_column, width } => {
                offset_in_row(input, width, rendered_row, less(column, content_column))
            },
            InputHitView::Masked { display, source_boundaries, content_column, bounded_width } => {
                let at = offset_at_column(
                    display,
                    less(column, content_column),
                    Some(bounded_width),
                );
                entry_or_last(
                    source_boundaries,
                    grapheme_clusters(slice_of(display.text, 0, at)).len() as int,
                )
            },
        }
    }
}

impl SurfaceInputHit {
    /// The cursor, as a byte offset, that a column of the surface stands for.
    pub fn cursor_at_column(&self, column: usize) -> (at: usize)
        ensures
            at == self@.cursor_at(column as int),
    {
        match self {
            SurfaceInputHit::Single { input, content_column, bounded_width } => {
                input.cursor_at_display_column(
                    column.saturating_sub(*content_column),
                    *bounded_width,
                )
            },
            SurfaceInputHit::Multiline { input, rendered_row, content_column, width } => {
                match input.cursor_at_rendered_row(
                    *width,
                    *rendered_row,
                    column.saturating_sub(*content_column),
                ) {
                    Some(at) => at,
                    None => input.cursor(),
                }
            },
            SurfaceInputHit::Masked {
                display,
                source_boundaries,
                content_column,
                bounded_width,
            } => {
                let at: usize = display.cursor_at_display_column(
                    column.saturating_sub(*content_column),
                    Some(*bounded_width),
                );
                proof {
                    lemma_ends_are_boundaries(display@.text);
                }
                let count: usize = graphemes(slice_text(display.text(), 0, at)).len();
                if count < source_boundaries.len() {
                    source_boundaries[count]
                } else if source_boundaries.len() > 0 {
                    source_boundaries[source_boundaries.len() - 1]
                } else {
                    0
                }
            },
        }
    }
}

/// A click on a masked input leads to one of the recorded boundaries.
pub proof fn law_masked_clicks_meet_boundaries(hit: InputHitView, column: int)
    requires
        hit is Masked,
        hit->source_boundaries.len() > 0,
    ensures
        exists|i: int|
            0 <= i < hit->source_boundaries.len() && hit->source_boundaries[i] == hit.cursor_at(
                column,
            ),
{
    let bounds = hit->source_boundaries;
    let at = offset_at_column(
        hit->display,
        less(column, hit->Masked_content_column),
        Some(hit->Masked_bounded_width),
    );
    let count = grapheme_clusters(slice_of(hit->display.text, 0, at)).len() as int;
    let index = if count < bounds.len() { count } else { bounds.len() - 1 };
    assert(bounds[index] == hit.cursor_at(column));
}

/// The rows of a surface and what they are.
#[derive(Debug)]
pub struct SurfaceLayout {
    pub lines: Vec<Line>,
    pub hits: Vec<ListHit>,
    pub surface_hits: Vec<SurfaceHit>,
    pub input_hits: Vec<Option<SurfaceInputHit>>,
    pub scroll_region: Option<SurfaceScrollRegion>,
}

/// The rows of a surface and what they are.
pub struct LayoutView {
    pub lines: Seq<LineView>,
    pub hits: Seq<ListHit>,
    pub surface_hits: Seq<SurfaceHit>,
    pub input_hits: Seq<Option<InputHitView>>,
    pub scroll_region: Option<SurfaceScrollRegion>,
}

pub open spec fn input_hit_view(hit: Option<SurfaceInputHit>) -> Option<InputHitView> {
    match hit {
        None => None,
        Some(hit) => Some(hit@),
    }
}

pub open spec fn input_hit_views(hits: Seq<Option<SurfaceInputHit>>) -> Seq<Option<InputHitView>> {
    hits.map_values(|hit: Option<SurfaceInputHit>| input_hit_view(hit))
}

impl View for SurfaceLayout {
    type V = LayoutView;

    open spec fn view(&self) -> LayoutView {
        LayoutView {
            lines: line_views(self.lines@),
            hits: self.hits@,
            surface_hits: self.surface_hits@,
            input_hits: input_hit_views(self.input_hits@),
            scroll_region: self.scroll_region,
        }
    }
}

/// Entries with others in place of those from `start` on.
pub open spec fn overlaid<A>(under: Seq<A>, start: int, over: Seq<A>) -> Seq<A> {
    Seq::new(
        under.len(),
        |i: int| if start <= i < start + over.len() { over[i - start] } else { under[i] },
    )
}

pub open spec fn list_hit_at(
    hits: Seq<ListHit>,
    under: SurfaceHit,
    prefix: int,
    i: int,
) -> SurfaceHit {
    if i >= prefix && hits[i] != ListHit::Blank { SurfaceHit::List(hits[i]) } else { under }
}

pub open spec fn scroll_hit_at(
    hits: Seq<ScrollViewHit>,
    under: SurfaceHit,
    prefix: int,
    i: int,
) -> SurfaceHit {
    if prefix <= i < prefix + hits.len() && hits[i - prefix] != ScrollViewHit::Blank {
        SurfaceHit::Scroll(hits[i - prefix])
    } else {
        under
    }
}

/// A hit on a content row, as a hit on an entry of a directory where the row is
/// one that can be selected.
pub open spec fn directory_hit(hit: SurfaceHit, selectable: Seq<bool>) -> SurfaceHit {
    match hit {
        SurfaceHit::Scroll(ScrollViewHit::Content(index)) => if index < selectable.len()
            && selectable[index as int] {
            SurfaceHit::DirectoryItem(index)
        } else {
            hit
        },
        _ => hit,
    }
}

impl LayoutView {
    /// Rows that nothing is on.
    pub open spec fn of(lines: Seq<LineView>) -> LayoutView {
        LayoutView {
            lines,
            hits: Seq::new(lines.len(), |i: int| ListHit::Blank),
            surface_hits: Seq::new(lines.len(), |i: int| SurfaceHit::Blank),
            input_hits: Seq::new(lines.len(), |i: int| None),
            scroll_region: None,
        }
    }

    /// Every row is accounted for.
    pub open spec fn aligned(self) -> bool {
        &&& self.hits.len() == self.lines.len()
        &&& self.surface_hits.len() == self.lines.len()
        &&& self.input_hits.len() == self.lines.len()
        &&& self.scroll_region is Some ==> self.scroll_region->0.end <= self.lines.len()
    }

    /// With a list whose first row is row `prefix`.
    pub open spec fn with_list(self, prefix: int, list: Seq<ListHit>) -> LayoutView {
        let hits = overlaid(self.hits, prefix, list);
        LayoutView {
            hits,
            surface_hits: Seq::new(
                self.surface_hits.len(),
                |i: int| list_hit_at(hits, self.surface_hits[i], prefix, i),
            ),
            ..self
        }
    }

    /// With a scroll view whose first row is row `prefix`.
    pub open spec fn with_scroll(
        self,
        prefix: int,
        scroll: Seq<ScrollViewHit>,
        metrics: ScrollViewMetrics,
    ) -> LayoutView {
        LayoutView {
            surface_hits: Seq::new(
                self.surface_hits.len(),
                |i: int| scroll_hit_at(scroll, self.surface_hits[i], prefix, i),
            ),
            scroll_region: Some(
                SurfaceScrollRegion {
                    start: prefix as usize,
                    end: min(capped(prefix + scroll.len()), self.lines.len() as int) as usize,
                    metrics,
                },
            ),
            ..self
        }
    }

    /// With the rows of a directory that can be selected.
    pub open spec fn with_directory(self, selectable: Seq<bool>) -> LayoutView {
        LayoutView {
            surface_hits: Seq::new(
                self.surface_hits.len(),
                |i: int| directory_hit(self.surface_hits[i], selectable),
            ),
            ..self
        }
    }

    /// With an input on row `row`, if there is such a row.
    pub open spec fn with_input(self, row: int, hit: InputHitView) -> LayoutView {
        if 0 <= row < self.input_hits.len() {
            LayoutView { input_hits: self.input_hits.update(row, Some(hit)), ..self }
        } else {
            self
        }
    }

    /// With an editor on each content row of a scroll view.
    pub open spec fn with_editor(
        self,
        input: InputView,
        content_column: int,
        width: int,
    ) -> LayoutView {
        LayoutView {
            input_hits: Seq::new(
                self.input_hits.len(),
                |i: int|
                    editor_hit(self.surface_hits[i], self.input_hits[i], input, content_column, width),
            ),
            ..self
        }
    }
}

/// What an editor puts on a row.
pub open spec fn editor_hit(
    hit: SurfaceHit,
    under: Option<InputHitView>,
    input: InputView,
    content_column: int,
    width: int,
) -> Option<InputHitView> {
    match hit {
        SurfaceHit::Scroll(ScrollViewHit::Content(row)) => Some(
            InputHitView::Multiline { input, rendered_row: row as int, content_column, width },
        ),
        _ => under,
    }
}

/// Whatever is put on the rows, every row stays accounted for, the rows
/// themselves stay as they are, and what is behind the last row is dropped.
pub proof fn law_layouts_stay_aligned(
    layout: LayoutView,
    prefix: int,
    list: Seq<ListHit>,
    scroll: Seq<ScrollViewHit>,
    metrics: ScrollViewMetrics,
    selectable: Seq<bool>,
    row: int,
    hit: InputHitView,
    input: InputView,
    column: int,
    width: int,
)
    requires
        layout.aligned(),
        0 <= prefix <= usize::MAX,
        layout.lines.len() <= usize::MAX,
    ensures
        LayoutView::of(layout.lines).aligned(),
        layout.with_list(prefix, list).aligned(),
        layout.with_scroll(prefix, scroll, metrics).aligned(),
        layout.with_directory(selectable).aligned(),
        layout.with_input(row, hit).aligned(),
        layout.with_editor(input, column, width).aligned(),
        layout.with_list(prefix, list).lines == layout.lines,
        layout.with_scroll(prefix, scroll, metrics).lines == layout.lines,
        layout.with_directory(selectable).lines == layout.lines,
        layout.with_input(row, hit).lines == layout.lines,
        layout.with_editor(input, column, width).lines == layout.lines,
{
}

impl SurfaceLayout {
    pub open spec fn aligned(&self) -> bool {
        self@.aligned()
    }

    /// Rows that nothing is on.
    pub fn new(lines: Vec<Line>) -> (layout: Self)
        ensures
            layout@ == LayoutView::of(line_views(lines@)),
            layout.aligned(),
    {
        let mut hits: Vec<ListHit> = Vec::new();
        let mut surface_hits: Vec<SurfaceHit> = Vec::new();
        let mut input_hits: Vec<Option<SurfaceInputHit>> = Vec::new();
        let count: usize = lines.len();
        let mut i: usize = 0;
        while i < count
            invariant
                i <= count,
                hits@ =~= Seq::new(i as nat, |k: int| ListHit::Blank),
                surface_hits@ =~= Seq::new(i as nat, |k: int| SurfaceHit::Blank),
                input_hits@ =~= Seq::new(i as nat, |k: int| None),
            decreases count - i,
        {
            hits.push(ListHit::Blank);
            surface_hits.push(SurfaceHit::Blank);
            input_hits.push(None);
            i += 1;
        }
        let layout = SurfaceLayout { lines, hits, surface_hits, input_hits, scroll_region: None };
        proof {
            let expected = LayoutView::of(line_views(lines@));
            assert(layout@.hits =~= expected.hits);
            assert(layout@.surface_hits =~= expected.surface_hits);
            assert(layout@.input_hits =~= expected.input_hits);
        }
        layout
    }

    /// Puts a list on the rows from row `prefix` on.
    pub fn overlay_list_hits(&mut self, prefix: usize, list: &[ListHit])
        requires
            old(self).aligned(),
        ensures
            final(self)@ == old(self)@.with_list(prefix as int, list@),
            final(self).aligned(),
    {
        let count: usize = self.lines.len();
        let ghost before = self@;
        let ghost expected = self@.with_list(prefix as int, list@);
        let mut i: usize = prefix;
        while i < count
            invariant
                i >= prefix,
                count == before.lines.len(),
                before.aligned(),
                expected == before.with_list(prefix as int, list@),
                self.hits@.len() == count,
                self.surface_hits@.len() == count,
                self@.lines == before.lines,
                self@.input_hits == before.input_hits,
                self.scroll_region == before.scroll_region,
                forall|k: int|
                    0 <= k < count ==> #[trigger] self.hits@[k] == if k < i {
                        expected.hits[k]
                    } else {
                        before.hits[k]
                    },
                forall|k: int|
                    0 <= k < count ==> #[trigger] self.surface_hits@[k] == if k < i {
                        expected.surface_hits[k]
                    } else {
                        before.surface_hits[k]
                    },
            decreases count - i,
        {
            if i - prefix < list.len() {
                self.hits.set(i, list[i - prefix]);
            }
            let hit: ListHit = self.hits[i];
            if hit != ListHit::Blank {
                self.surface_hits.set(i, SurfaceHit::List(hit));
            }
            i += 1;
        }
        proof {
            assert(self@.hits =~= expected.hits);
            assert(self@.surface_hits =~= expected.surface_hits);
        }
    }

    /// Puts a scroll view on the rows from row `prefix` on, and records where it
    /// stands.
    pub fn overlay_scroll_layout(&mut self, prefix: usize, scroll: &ScrollViewLayout)
        requires
            old(self).aligned(),
        ensures
            final(self)@ == old(self)@.with_scroll(prefix as int, scroll.hits@, scroll.metrics),
            final(self).aligned(),
    {
        let count: usize = self.lines.len();
        let reach: usize = prefix.saturating_add(scroll.hits.len());
        let end: usize = if reach <= count {
            reach
        } else {
            count
        };
        let ghost before = self@;
        let ghost expected = self@.with_scroll(prefix as int, scroll.hits@, scroll.metrics);
        let mut i: usize = prefix;
        while i < end
            invariant
                i >= prefix,
                end == min(capped(prefix + scroll.hits@.len()), before.lines.len() as int),
                i <= end || i == prefix,
                before.aligned(),
                expected == before.with_scroll(prefix as int, scroll.hits@, scroll.metrics),
                self.surface_hits@.len() == before.lines.len(),
                self@.lines == before.lines,
                self.hits@ == before.hits,
                self@.input_hits == before.input_hits,
                forall|k: int|
                    0 <= k < before.lines.len() ==> #[trigger] self.surface_hits@[k] == if k < i {
                        expected.surface_hits[k]
                    } else {
                        before.surface_hits[k]
                    },
            decreases end - i,
        {
            let hit: ScrollViewHit = scroll.hits[i - prefix];
            if hit != ScrollViewHit::Blank {
                self.surface_hits.set(i, SurfaceHit::Scroll(hit));
            }
            i += 1;
        }
        self.scroll_region = Some(
            SurfaceScrollRegion { start: prefix, end, metrics: scroll.metrics },
        );
        proof {
            assert(self@.surface_hits =~= expected.surface_hits);
        }
    }

    /// Marks the rows of a directory that can be selected.
    pub fn overlay_directory(&mut self, selectable: &[bool])
        requires
            old(self).aligned(),
        ensures
            final(self)@ == old(self)@.with_directory(selectable@),
            final(self).aligned(),
    {
        let count: usize = self.surface_hits.len();
        let ghost before = self@;
        let ghost expected = self@.with_directory(selectable@);
        let mut i: usize = 0;
        while i < count
            invariant
                i <= count,
                count == before.surface_hits.len(),
                before.aligned(),
                expected == before.with_directory(selectable@),
                self.surface_hits@.len() == count,
                self@.lines == before.lines,
                self.hits@ == before.hits,
                self@.input_hits == before.input_hits,
                self.scroll_region == before.scroll_region,
                forall|k: int|
                    0 <= k < count ==> #[trigger] self.surface_hits@[k] == if k < i {
                        expected.surface_hits[k]
                    } else {
                        before.surface_hits[k]
                    },
            decreases count - i,
        {
            if let SurfaceHit::Scroll(ScrollViewHit::Content(index)) = self.surface_hits[i] {
                if index < selectable.len() && selectable[index] {
                    self.surface_hits.set(i, SurfaceHit::DirectoryItem(index));
                }
            }
            i += 1;
        }
        proof {
            assert(self@.surface_hits =~= expected.surface_hits);
        }
    }

    /// Puts an input on a row, if there is such a row.
    pub fn overlay_input_hit(&mut self, row: usize, hit: SurfaceInputHit)
        requires
            old(self).aligned(),
        ensures
            final(self)@ == old(self)@.with_input(row as int, hit@),
            final(self).aligned(),
    {
        let ghost before = self@;
        if row < self.input_hits.len() {
            self.input_hits.set(row, Some(hit));
            proof {
                assert(self@.input_hits =~= before.with_input(row as int, hit@).input_hits);
            }
        }
    }

    /// Puts a single-line input on a row.
    pub fn overlay_single(
        &mut self,
        row: usize,
        value: &str,
        cursor: usize,
        content_column: usize,
        bounded_width: Option<usize>,
    )
        requires
            old(self).aligned(),
        ensures
            final(self)@ == old(self)@.with_input(
                row as int,
                single_hit(value@, cursor as int, content_column as int, bounded_width),
            ),
            final(self).aligned(),
    {
        self.overlay_input_hit(
            row,
            SurfaceInputHit::Single {
                input: SingleLineInput::new(value.to_owned(), cursor),
                content_column,
                bounded_width,
            },
        );
    }

    /// Puts an editor on every content row of the scroll view.
    pub fn overlay_editor(&mut self, input: &MultilineInput, content_column: usize, width: u16)
        requires
            old(self).aligned(),
        ensures
            final(self)@ == old(self)@.with_editor(input@, content_column as int, width as int),
            final(self).aligned(),
    {
        let count: usize = self.surface_hits.len();
        let ghost before = self@;
        let ghost expected = self@.with_editor(input@, content_column as int, width as int);
        let mut i: usize = 0;
        while i < count
            invariant
                i <= count,
                count == before.surface_hits.len(),
                before.aligned(),
                expected == before.with_editor(input@, content_column as int, width as int),
                self.input_hits@.len() == count,
                self@.lines == before.lines,
                self.hits@ == before.hits,
                self.surface_hits@ == before.surface_hits,
                self.scroll_region == before.scroll_region,
                forall|k: int|
                    0 <= k < count ==> #[trigger] self@.input_hits[k] == if k < i {
                        expected.input_hits[k]
                    } else {
                        before.input_hits[k]
                    },
            decreases count - i,
        {
            let ghost earlier = self@.input_hits;
            if let SurfaceHit::Scroll(ScrollViewHit::Content(row)) = self.surface_hits[i] {
                self.input_hits.set(
                    i,
                    Some(
                        SurfaceInputHit::Multiline {
                            input: input.clone(),
                            rendered_row: row,
                            content_column,
                            width,
                        },
                    ),
                );
                proof {
                    assert(self@.input_hits =~= earlier.update(i as int, expected.input_hits[i as int]));
                }
            }
            i += 1;
        }
        proof {
            assert(self@.input_hits =~= expected.input_hits);
        }
    }

    /// What is on a row.
    pub fn surface_hit(&self, row: usize) -> (hit: SurfaceHit)
        ensures
            hit == if row < self@.surface_hits.len() {
                self@.surface_hits[row as int]
            } else {
                SurfaceHit::Blank
            },
    {
        if row < self.surface_hits.len() {
            self.surface_hits[row]
        } else {
            SurfaceHit::Blank
        }
    }

    /// The cursor, as a byte offset, that a place on an input stands for.
    pub fn input_cursor_at(&self, row: usize, column: usize) -> (cursor: Option<usize>)
        ensures
            match cursor {
                None => row >= self@.input_hits.len() || self@.input_hits[row as int] is None,
                Some(cursor) => {
                    &&& row < self@.input_hits.len()
                    &&& self@.input_hits[row as int] is Some
                    &&& cursor == self@.input_hits[row as int]->0.cursor_at(column as int)
                },
            },
    {
        if row < self.input_hits.len() {
            match &self.input_hits[row] {
                Some(hit) => Some(hit.cursor_at_column(column)),
                None => None,
            }
        } else {
            None
        }
    }
}

/// A single-line input on a row.
pub open spec fn single_hit(
    value: Seq<char>,
    cursor: int,
    content_column: int,
    bounded_width: Option<usize>,
) -> InputHitView {
    InputHitView::Single {
        input: InputView::of(value, cursor),
        content_column,
        bounded_width: match bounded_width {
            None => None,
            Some(width) => Some(width as int),
        },
    }
}

} // verus!
