//! The editor of the status line: which modules it shows, in which order and in
//! which colours.

use vstd::prelude::*;
use vstd::string::*;
use crate::control::{
    action_of, cursor_at_end, edit_field, field_after, field_is, field_takes, list_after, move_list,
    SurfaceKey,
};
use crate::key::KeyCode;
use crate::list::{settled, VISIBLE_MENU_ITEMS, ListState};
use crate::style::StatusLineColor;
use crate::text::{chars_of, utf8_len};

verus! {

/// A module of the status line: its position in the default order.
#[derive(Clone, Copy, Debug, PartialEq, Eq, Structural)]
pub struct StatusLineModule {
    pub index: u8,
}

/// What modules and colours there are.
#[derive(Debug)]
pub struct StatusLineCatalog {
    /// The number of modules.
    pub modules: u8,
    /// The module that gives hints; it stays behind modules that are added.
    pub hint: StatusLineModule,
    /// The module that shows the mode; it has the colour of the mode.
    pub mode: StatusLineModule,
    /// The colour of each module, unless another is chosen.
    pub default_colors: Vec<StatusLineColor>,
    /// The number of colours with a name.
    pub named_colors: u8,
}

impl StatusLineCatalog {
    /// Each module has a default colour.
    pub open spec fn valid(self) -> bool {
        self.default_colors@.len() == self.modules
    }

    pub open spec fn has(self, module: StatusLineModule) -> bool {
        module.index < self.modules
    }
}

/// What the status line shows.
#[derive(Debug)]
pub struct StatusLineConfig {
    pub modules: Vec<StatusLineModule>,
    pub colors: Vec<(StatusLineModule, StatusLineColor)>,
}

/// A colour that can be chosen.
#[derive(Clone, Copy, Debug, PartialEq, Eq, Structural)]
pub enum StatusLineColorChoice {
    Default,
    Named(StatusLineColor),
    Custom,
}

/// The colours that can be chosen: the default, those with a name, and any.
pub open spec fn color_choices(named: int) -> Seq<StatusLineColorChoice> {
    seq![StatusLineColorChoice::Default] + Seq::new(
        named as nat,
        |i: int| StatusLineColorChoice::Named(StatusLineColor::Named(i as u8)),
    ) + seq![StatusLineColorChoice::Custom]
}

pub fn status_line_color_choices(named: u8) -> (choices: Vec<StatusLineColorChoice>)
    ensures
        choices@ == color_choices(named as int),
        choices@.len() == named + 2,
{
    let mut choices: Vec<StatusLineColorChoice> = Vec::new();
    choices.push(StatusLineColorChoice::Default);
    let mut i: u8 = 0;
    while i < named
        invariant
            i <= named,
            choices@ == seq![StatusLineColorChoice::Default] + Seq::new(
                i as nat,
                |k: int| StatusLineColorChoice::Named(StatusLineColor::Named(k as u8)),
            ),
        decreases named - i,
    {
        choices.push(StatusLineColorChoice::Named(StatusLineColor::Named(i)));
        i += 1;
        proof {
            assert(choices@ =~= seq![StatusLineColorChoice::Default] + Seq::new(
                i as nat,
                |k: int| StatusLineColorChoice::Named(StatusLineColor::Named(k as u8)),
            ));
        }
    }
    choices.push(StatusLineColorChoice::Custom);
    proof {
        assert(choices@ =~= color_choices(named as int));
    }
    choices
}

/// The choice that a colour is.
pub open spec fn color_choice_index(default: StatusLineColor, color: StatusLineColor, named: int)
    -> int {
    if color == default {
        0
    } else {
        match color {
            StatusLineColor::Named(index) => if index < named { index + 1 } else { named + 1 },
            StatusLineColor::Rgb(..) => named + 1,
        }
    }
}

pub fn status_line_color_choice_index(
    default: StatusLineColor,
    color: StatusLineColor,
    named: u8,
) -> (index: usize)
    ensures
        index == color_choice_index(default, color, named as int),
{
    if color == default {
        return 0;
    }
    match color {
        StatusLineColor::Named(index) => if index < named {
            index as usize + 1
        } else {
            named as usize + 1
        },
        StatusLineColor::Rgb(..) => named as usize + 1,
    }
}

/// The choice that a colour is gives the colour back: the default, the colour
/// itself, or any for one without a name.
pub proof fn law_color_choices_are_found(
    default: StatusLineColor,
    color: StatusLineColor,
    named: int,
)
    requires
        0 <= named <= 255,
    ensures
        ({
            let index = color_choice_index(default, color, named);
            let choice = color_choices(named)[index];
            &&& 0 <= index < color_choices(named).len()
            &&& choice == if color == default {
                StatusLineColorChoice::Default
            } else if color matches StatusLineColor::Named(i) && i < named {
                StatusLineColorChoice::Named(color)
            } else {
                StatusLineColorChoice::Custom
            }
        }),
{
    let index = color_choice_index(default, color, named);
    if color != default {
        if let StatusLineColor::Named(i) = color {
            if i < named {
                assert(color_choices(named)[i + 1] == StatusLineColorChoice::Named(
                    StatusLineColor::Named(i),
                ));
            }
        }
    }
}

/// The position of a module, or the number of them.
pub open spec fn position(modules: Seq<StatusLineModule>, module: StatusLineModule) -> int
    decreases modules.len(),
{
    if modules.len() == 0 || modules[0] == module {
        0
    } else {
        1 + position(modules.drop_first(), module)
    }
}

pub proof fn lemma_position(modules: Seq<StatusLineModule>, module: StatusLineModule)
    ensures
        0 <= position(modules, module) <= modules.len(),
        position(modules, module) < modules.len() ==> modules[position(modules, module)] == module,
        position(modules, module) < modules.len() <==> modules.contains(module),
        forall|i: int| 0 <= i < position(modules, module) ==> #[trigger] modules[i] != module,
    decreases modules.len(),
{
    if modules.len() > 0 && modules[0] != module {
        let rest = modules.drop_first();
        lemma_position(rest, module);
        assert forall|i: int| 0 <= i < position(modules, module) implies #[trigger] modules[i]
            != module by {
            if i > 0 {
                assert(rest[i - 1] == modules[i]);
            }
        }
        if rest.contains(module) {
            let k = position(rest, module);
            assert(modules[k + 1] == rest[k]);
        }
        if modules.contains(module) {
            let k = choose|k: int| 0 <= k < modules.len() && modules[k] == module;
            assert(rest[k - 1] == module);
        }
    } else if modules.len() > 0 {
        assert(modules[0] == module);
    }
}

fn find(modules: &[StatusLineModule], module: StatusLineModule) -> (at: usize)
    ensures
        at == position(modules@, module),
        at <= modules@.len(),
        at < modules@.len() <==> modules@.contains(module),
        at < modules@.len() ==> modules@[at as int] == module,
{
    let mut i: usize = 0;
    proof {
        assert(modules@.skip(0) =~= modules@);
        lemma_position(modules@, module);
    }
    while i < modules.len() && modules[i] != module
        invariant
            i <= modules@.len(),
            position(modules@, module) == i + position(modules@.skip(i as int), module),
        decreases modules@.len() - i,
    {
        proof {
            let tail = modules@.skip(i as int);
            assert(tail[0] == modules@[i as int]);
            assert(tail.drop_first() =~= modules@.skip(i + 1));
        }
        i += 1;
    }
    proof {
        let tail = modules@.skip(i as int);
        if i < modules@.len() {
            assert(tail[0] == modules@[i as int]);
        }
    }
    i
}

/// The modules of the default order that are not among `modules`.
pub open spec fn missing(modules: Seq<StatusLineModule>, count: int) -> Seq<StatusLineModule>
    decreases count,
{
    if count <= 0 {
        Seq::empty()
    } else {
        let last = StatusLineModule { index: (count - 1) as u8 };
        let before = missing(modules, count - 1);
        if modules.contains(last) { before } else { before.push(last) }
    }
}

/// The rows of the editor: the modules that are shown, and then the others.
pub fn status_line_rows(config: &StatusLineConfig, count: u8) -> (rows: Vec<StatusLineModule>)
    ensures
        rows@ == config.modules@ + missing(config.modules@, count as int),
{
    let mut rows: Vec<StatusLineModule> = Vec::new();
    let mut i: usize = 0;
    while i < config.modules.len()
        invariant
            i <= config.modules@.len(),
            rows@ == config.modules@.take(i as int),
        decreases config.modules@.len() - i,
    {
        rows.push(config.modules[i]);
        i += 1;
        proof {
            assert(rows@ =~= config.modules@.take(i as int));
        }
    }
    proof {
        assert(config.modules@.take(i as int) =~= config.modules@);
        assert(config.modules@ + Seq::<StatusLineModule>::empty() =~= config.modules@);
    }
    let mut k: u8 = 0;
    while k < count
        invariant
            k <= count,
            rows@ == config.modules@ + missing(config.modules@, k as int),
        decreases count - k,
    {
        let module = StatusLineModule { index: k };
        if find(config.modules.as_slice(), module) == config.modules.len() {
            rows.push(module);
        }
        k += 1;
        proof {
            assert(rows@ =~= config.modules@ + missing(config.modules@, k as int));
        }
    }
    rows
}

/// Every module has a row, whether it is shown or not.
pub proof fn law_every_module_has_a_row(
    modules: Seq<StatusLineModule>,
    count: int,
    module: StatusLineModule,
)
    requires
        0 <= count <= 256,
        module.index < count,
    ensures
        (modules + missing(modules, count)).contains(module),
    decreases count,
{
    let rows = modules + missing(modules, count);
    if modules.contains(module) {
        let k = choose|k: int| 0 <= k < modules.len() && modules[k] == module;
        assert(rows[k] == module);
    } else {
        lemma_missing(modules, count, module);
        let rest = missing(modules, count);
        let k = choose|k: int| 0 <= k < rest.len() && rest[k] == module;
        assert(rows[modules.len() + k] == module);
    }
}

proof fn lemma_missing(modules: Seq<StatusLineModule>, count: int, module: StatusLineModule)
    requires
        0 <= count <= 256,
        module.index < count,
        !modules.contains(module),
    ensures
        missing(modules, count).contains(module),
    decreases count,
{
    let last = StatusLineModule { index: (count - 1) as u8 };
    let before = missing(modules, count - 1);
    if module.index == count - 1 {
        assert(module == last);
        assert(missing(modules, count).last() == module);
    } else {
        lemma_missing(modules, count - 1, module);
        let k = choose|k: int| 0 <= k < before.len() && before[k] == module;
        assert(missing(modules, count)[k] == module);
    }
}

/// Whether the colour of a module can be chosen.
pub fn status_line_module_color_editable(catalog: &StatusLineCatalog, module: StatusLineModule)
    -> (yes: bool)
    ensures
        yes == (module != catalog.mode),
{
    module != catalog.mode
}

/// The modules without one of them.
pub open spec fn without(modules: Seq<StatusLineModule>, module: StatusLineModule) -> Seq<
    StatusLineModule,
>
    decreases modules.len(),
{
    if modules.len() == 0 {
        modules
    } else if modules.last() == module {
        without(modules.drop_last(), module)
    } else {
        without(modules.drop_last(), module).push(modules.last())
    }
}

fn remove_module(modules: &Vec<StatusLineModule>, module: StatusLineModule) -> (rest: Vec<
    StatusLineModule,
>)
    ensures
        rest@ == without(modules@, module),
{
    let mut rest: Vec<StatusLineModule> = Vec::new();
    let mut i: usize = 0;
    proof {
        assert(modules@.take(0) =~= Seq::empty());
    }
    while i < modules.len()
        invariant
            i <= modules@.len(),
            rest@ == without(modules@.take(i as int), module),
        decreases modules@.len() - i,
    {
        if modules[i] != module {
            rest.push(modules[i]);
        }
        i += 1;
        proof {
            assert(modules@.take(i as int).drop_last() =~= modules@.take(i - 1));
        }
    }
    proof {
        assert(modules@.take(i as int) =~= modules@);
    }
    rest
}

/// Where a module is put among modules that are in the order of the rows.
pub open spec fn row_position(
    modules: Seq<StatusLineModule>,
    rows: Seq<StatusLineModule>,
    row: int,
) -> int
    decreases modules.len(),
{
    if modules.len() == 0 || position(rows, modules[0]) > row {
        0
    } else {
        1 + row_position(modules.drop_first(), rows, row)
    }
}

/// Modules in the order of the rows.
pub open spec fn in_row_order(modules: Seq<StatusLineModule>, rows: Seq<StatusLineModule>) -> Seq<
    StatusLineModule,
>
    decreases modules.len(),
{
    if modules.len() == 0 {
        modules
    } else {
        let before = in_row_order(modules.drop_last(), rows);
        before.insert(
            row_position(before, rows, position(rows, modules.last())),
            modules.last(),
        )
    }
}

proof fn lemma_row_position(
    modules: Seq<StatusLineModule>,
    rows: Seq<StatusLineModule>,
    row: int,
)
    ensures
        0 <= row_position(modules, rows, row) <= modules.len(),
        forall|i: int|
            0 <= i < row_position(modules, rows, row) ==> position(rows, #[trigger] modules[i])
                <= row,
        row_position(modules, rows, row) < modules.len() ==> position(
            rows,
            modules[row_position(modules, rows, row)],
        ) > row,
    decreases modules.len(),
{
    if modules.len() > 0 && position(rows, modules[0]) <= row {
        let rest = modules.drop_first();
        lemma_row_position(rest, rows, row);
        assert forall|i: int| 0 <= i < row_position(modules, rows, row) implies position(
            rows,
            #[trigger] modules[i],
        ) <= row by {
            if i > 0 {
                assert(rest[i - 1] == modules[i]);
            }
        }
        if row_position(modules, rows, row) < modules.len() {
            assert(rest[row_position(rest, rows, row)] == modules[row_position(
                modules,
                rows,
                row,
            )]);
        }
    }
}

/// Putting modules in the order of the rows loses nothing and leaves them in
/// that order.
pub proof fn law_modules_follow_the_rows(
    modules: Seq<StatusLineModule>,
    rows: Seq<StatusLineModule>,
)
    ensures
        in_row_order(modules, rows).len() == modules.len(),
        in_row_order(modules, rows).to_multiset() == modules.to_multiset(),
        forall|i: int, j: int|
            0 <= i < j < modules.len() ==> position(rows, #[trigger] in_row_order(modules, rows)[i])
                <= position(rows, #[trigger] in_row_order(modules, rows)[j]),
    decreases modules.len(),
{
    broadcast use vstd::seq_lib::group_to_multiset_ensures;

    if modules.len() > 0 {
        let before = in_row_order(modules.drop_last(), rows);
        let module = modules.last();
        let row = position(rows, module);
        let at = row_position(before, rows, row);
        law_modules_follow_the_rows(modules.drop_last(), rows);
        lemma_row_position(before, rows, row);
        let after = before.insert(at, module);
        assert forall|i: int, j: int| 0 <= i < j < after.len() implies position(
            rows,
            #[trigger] after[i],
        ) <= position(rows, #[trigger] after[j]) by {
            if i < at && j > at {
                assert(after[i] == before[i] && after[j] == before[j - 1]);
            } else if i < at && j < at {
                assert(after[i] == before[i] && after[j] == before[j]);
            } else if i < at {
                assert(after[i] == before[i] && after[j] == module);
            } else if i == at {
                assert(after[j] == before[j - 1]);
                if j - 1 > at {
                    assert(position(rows, before[at]) <= position(rows, before[j - 1]));
                }
            } else {
                assert(after[i] == before[i - 1] && after[j] == before[j - 1]);
            }
        }
        vstd::seq_lib::to_multiset_insert(before, at, module);
        assert(modules =~= modules.drop_last().push(module));
        vstd::seq_lib::to_multiset_build(modules.drop_last(), module);
    }
}

fn sort_by_rows(modules: &Vec<StatusLineModule>, rows: &Vec<StatusLineModule>) -> (sorted: Vec<
    StatusLineModule,
>)
    ensures
        sorted@ == in_row_order(modules@, rows@),
{
    let mut sorted: Vec<StatusLineModule> = Vec::new();
    let mut i: usize = 0;
    proof {
        assert(modules@.take(0) =~= Seq::empty());
    }
    while i < modules.len()
        invariant
            i <= modules@.len(),
            sorted@ == in_row_order(modules@.take(i as int), rows@),
        decreases modules@.len() - i,
    {
        let row: usize = find(rows.as_slice(), modules[i]);
        let mut at: usize = 0;
        proof {
            assert(sorted@.skip(0) =~= sorted@);
            assert(modules@.take(i + 1).drop_last() =~= modules@.take(i as int));
            assert(modules@.take(i + 1).last() == modules@[i as int]);
        }
        while at < sorted.len() && find(rows.as_slice(), sorted[at]) <= row
            invariant
                at <= sorted@.len(),
                row_position(sorted@, rows@, row as int) == at + row_position(
                    sorted@.skip(at as int),
                    rows@,
                    row as int,
                ),
            decreases sorted@.len() - at,
        {
            proof {
                let tail = sorted@.skip(at as int);
                assert(tail[0] == sorted@[at as int]);
                assert(tail.drop_first() =~= sorted@.skip(at + 1));
            }
            at += 1;
        }
        proof {
            let tail = sorted@.skip(at as int);
            if at < sorted@.len() {
                assert(tail[0] == sorted@[at as int]);
            }
        }
        sorted.insert(at, modules[i]);
        i += 1;
    }
    proof {
        assert(modules@.take(i as int) =~= modules@);
    }
    sorted
}

/// The rows once a module is added: the hint moves behind it.
pub open spec fn rows_with(
    modules: Seq<StatusLineModule>,
    rows: Seq<StatusLineModule>,
    module: StatusLineModule,
    hint: StatusLineModule,
) -> Seq<StatusLineModule> {
    let at = position(rows, module);
    let hint_at = position(rows, hint);
    if module != hint && modules.contains(hint) && at < rows.len() && hint_at < at {
        let rest = rows.remove(hint_at);
        rest.insert(position(rest, module) + 1, hint)
    } else {
        rows
    }
}

/// The rows once a module is shown or not.
pub open spec fn rows_after(
    modules: Seq<StatusLineModule>,
    rows: Seq<StatusLineModule>,
    module: StatusLineModule,
    enabled: bool,
    hint: StatusLineModule,
) -> Seq<StatusLineModule> {
    if enabled && !modules.contains(module) {
        rows_with(modules, rows, module, hint)
    } else {
        rows
    }
}

/// The modules that are shown once one of them is or is not.
pub open spec fn modules_after(
    modules: Seq<StatusLineModule>,
    module: StatusLineModule,
    enabled: bool,
) -> Seq<StatusLineModule> {
    if !enabled {
        without(modules, module)
    } else if modules.contains(module) {
        modules
    } else {
        modules.push(module)
    }
}

/// Shows a module, or no longer. The modules follow the rows.
pub fn set_status_line_module_enabled(
    config: &mut StatusLineConfig,
    rows: &mut Vec<StatusLineModule>,
    module: StatusLineModule,
    enabled: bool,
    hint: StatusLineModule,
)
    ensures
        final(config).colors == old(config).colors,
        final(rows)@ == rows_after(old(config).modules@, old(rows)@, module, enabled, hint),
        final(config).modules@ == in_row_order(
            modules_after(old(config).modules@, module, enabled),
            final(rows)@,
        ),
{
    let ghost shown = config.modules@;
    let ghost before = rows@;
    proof {
        lemma_position(before, module);
        lemma_position(before, hint);
    }
    if enabled {
        if find(config.modules.as_slice(), module) == config.modules.len() {
            let hinted: bool = find(config.modules.as_slice(), hint) < config.modules.len();
            config.modules.push(module);
            if module != hint && hinted {
                let at: usize = find(rows.as_slice(), module);
                let hint_at: usize = find(rows.as_slice(), hint);
                if at < rows.len() && hint_at < at {
                    let moved: StatusLineModule = rows.remove(hint_at);
                    let behind: usize = find(rows.as_slice(), module);
                    proof {
                        let rest = before.remove(hint_at as int);
                        assert(rest[at - 1] == module);
                        lemma_position(rest, module);
                    }
                    rows.insert(behind + 1, moved);
                }
            }
        }
    } else {
        config.modules = remove_module(&config.modules, module);
    }
    config.modules = sort_by_rows(&config.modules, rows);
}

proof fn lemma_without(modules: Seq<StatusLineModule>, module: StatusLineModule, other: StatusLineModule)
    ensures
        !without(modules, module).contains(module),
        other != module ==> without(modules, module).contains(other) == modules.contains(other),
    decreases modules.len(),
{
    if modules.len() > 0 {
        let before = modules.drop_last();
        lemma_without(before, module, other);
        let rest = without(before, module);
        if modules.last() != module {
            assert forall|i: int| 0 <= i < rest.push(modules.last()).len() implies #[trigger] rest.push(
                modules.last(),
            )[i] != module by {
                if i < rest.len() {
                    assert(rest.contains(rest[i]));
                }
            }
        }
        if other != module {
            if modules.contains(other) {
                let k = choose|k: int| 0 <= k < modules.len() && modules[k] == other;
                if k < before.len() {
                    assert(before[k] == other);
                    let j = choose|j: int| 0 <= j < rest.len() && rest[j] == other;
                    if modules.last() != module {
                        assert(rest.push(modules.last())[j] == other);
                    }
                } else {
                    assert(rest.push(modules.last()).last() == other);
                }
            }
            if without(modules, module).contains(other) {
                let after = without(modules, module);
                let k = choose|k: int| 0 <= k < after.len() && after[k] == other;
                if k < rest.len() {
                    assert(rest[k] == other);
                    let j = choose|j: int| 0 <= j < before.len() && before[j] == other;
                    assert(modules[j] == other);
                } else {
                    assert(modules[modules.len() - 1] == other);
                }
            }
        }
    }
}

/// A module that was shown is shown, one that was hidden is not, and no other
/// is affected.
pub proof fn law_enabling_affects_one_module(
    modules: Seq<StatusLineModule>,
    rows: Seq<StatusLineModule>,
    module: StatusLineModule,
    enabled: bool,
    other: StatusLineModule,
)
    ensures
        in_row_order(modules_after(modules, module, enabled), rows).contains(module) == enabled,
        other != module ==> in_row_order(modules_after(modules, module, enabled), rows).contains(
            other,
        ) == modules.contains(other),
{
    broadcast use vstd::seq_lib::group_to_multiset_ensures;

    let after = modules_after(modules, module, enabled);
    law_modules_follow_the_rows(after, rows);
    let sorted = in_row_order(after, rows);
    assert(sorted.contains(module) <==> sorted.to_multiset().count(module) > 0);
    assert(after.contains(module) <==> after.to_multiset().count(module) > 0);
    assert(sorted.contains(other) <==> sorted.to_multiset().count(other) > 0);
    assert(after.contains(other) <==> after.to_multiset().count(other) > 0);
    if !enabled {
        lemma_without(modules, module, other);
    } else if !modules.contains(module) {
        assert(after.last() == module);
        if other != module && modules.contains(other) {
            let k = choose|k: int| 0 <= k < modules.len() && modules[k] == other;
            assert(after[k] == other);
        }
        if other != module && after.contains(other) {
            let k = choose|k: int| 0 <= k < after.len() && after[k] == other;
            assert(modules[k] == other);
        }
    }
}

/// Two elements exchanged.
pub open spec fn swapped(modules: Seq<StatusLineModule>, a: int, b: int) -> Seq<StatusLineModule> {
    modules.update(a, modules[b]).update(b, modules[a])
}

/// The neighbour that a module changes places with.
pub open spec fn neighbour(modules: Seq<StatusLineModule>, module: StatusLineModule, earlier: bool)
    -> Option<int> {
    let at = position(modules, module);
    if at >= modules.len() {
        None
    } else if earlier {
        if at > 0 { Some(at - 1) } else { None }
    } else {
        if at + 1 < modules.len() { Some(at + 1) } else { None }
    }
}

/// The modules once one of them has changed places with its neighbour.
pub open spec fn modules_moved(
    modules: Seq<StatusLineModule>,
    module: StatusLineModule,
    earlier: bool,
) -> Seq<StatusLineModule> {
    match neighbour(modules, module, earlier) {
        None => modules,
        Some(target) => swapped(modules, position(modules, module), target),
    }
}

/// The rows once a module has changed places with its neighbour.
pub open spec fn rows_moved(
    modules: Seq<StatusLineModule>,
    rows: Seq<StatusLineModule>,
    module: StatusLineModule,
    earlier: bool,
) -> Seq<StatusLineModule> {
    match neighbour(modules, module, earlier) {
        None => rows,
        Some(target) => {
            let row = position(rows, module);
            let other = position(rows, modules[target]);
            if row < rows.len() && other < rows.len() { swapped(rows, row, other) } else { rows }
        },
    }
}

/// Moves a module that is shown before or behind its neighbour.
pub fn move_status_line_module(
    config: &mut StatusLineConfig,
    rows: &mut Vec<StatusLineModule>,
    module: StatusLineModule,
    earlier: bool,
)
    ensures
        final(config).colors == old(config).colors,
        final(config).modules@ == modules_moved(old(config).modules@, module, earlier),
        final(rows)@ == rows_moved(old(config).modules@, old(rows)@, module, earlier),
{
    let count: usize = config.modules.len();
    let at: usize = find(config.modules.as_slice(), module);
    if at == count {
        return;
    }
    let target: usize = if earlier {
        if at == 0 {
            return;
        }
        at - 1
    } else {
        if at + 1 >= count {
            return;
        }
        at + 1
    };
    let other: StatusLineModule = config.modules[target];
    config.modules.set(at, other);
    config.modules.set(target, module);
    let row: usize = find(rows.as_slice(), module);
    if row == rows.len() {
        return;
    }
    let other_row: usize = find(rows.as_slice(), other);
    if other_row == rows.len() {
        return;
    }
    rows.set(row, other);
    rows.set(other_row, module);
}

/// Where an element stands among others that are all different.
pub proof fn lemma_only_position(modules: Seq<StatusLineModule>, at: int)
    requires
        modules.no_duplicates(),
        0 <= at < modules.len(),
    ensures
        position(modules, modules[at]) == at,
{
    lemma_position(modules, modules[at]);
}

proof fn lemma_swapped(modules: Seq<StatusLineModule>, a: int, b: int)
    requires
        modules.no_duplicates(),
        0 <= a < modules.len(),
        0 <= b < modules.len(),
        a != b,
    ensures
        swapped(modules, a, b).no_duplicates(),
        position(swapped(modules, a, b), modules[a]) == b,
        position(swapped(modules, a, b), modules[b]) == a,
        swapped(swapped(modules, a, b), b, a) == modules,
{
    let moved = swapped(modules, a, b);
    assert forall|i: int, j: int| 0 <= i < moved.len() && 0 <= j < moved.len() && i != j implies moved[i]
        != moved[j] by {
        let from_i = if i == a { b } else if i == b { a } else { i };
        let from_j = if j == a { b } else if j == b { a } else { j };
        assert(moved[i] == modules[from_i]);
        assert(moved[j] == modules[from_j]);
    }
    lemma_only_position(moved, a);
    lemma_only_position(moved, b);
    assert(swapped(moved, b, a) =~= modules);
}

/// Moving a module and moving it back restores the order of the modules and of the rows.
pub proof fn law_moving_back_restores(
    modules: Seq<StatusLineModule>,
    rows: Seq<StatusLineModule>,
    module: StatusLineModule,
    earlier: bool,
)
    requires
        modules.no_duplicates(),
        rows.no_duplicates(),
        neighbour(modules, module, earlier) is Some,
    ensures
        modules_moved(modules_moved(modules, module, earlier), module, !earlier) == modules,
        rows_moved(
            modules_moved(modules, module, earlier),
            rows_moved(modules, rows, module, earlier),
            module,
            !earlier,
        ) == rows,
{
    lemma_position(modules, module);
    let at = position(modules, module);
    let target = neighbour(modules, module, earlier)->0;
    let other = modules[target];
    lemma_swapped(modules, at, target);
    let moved = swapped(modules, at, target);
    assert(moved[at] == other);
    lemma_position(rows, module);
    lemma_position(rows, other);
    let row = position(rows, module);
    let other_row = position(rows, other);
    if row < rows.len() && other_row < rows.len() {
        lemma_swapped(rows, row, other_row);
    }
}

/// The rows with a module back at its default place.
pub open spec fn default_place(rows: Seq<StatusLineModule>, module: StatusLineModule) -> int
    decreases rows.len(),
{
    if rows.len() == 0 || rows[0].index > module.index {
        0
    } else {
        1 + default_place(rows.drop_first(), module)
    }
}

/// The colours without that of a module.
pub open spec fn colors_without(
    colors: Seq<(StatusLineModule, StatusLineColor)>,
    module: StatusLineModule,
) -> Seq<(StatusLineModule, StatusLineColor)>
    decreases colors.len(),
{
    if colors.len() == 0 {
        colors
    } else if colors.last().0 == module {
        colors_without(colors.drop_last(), module)
    } else {
        colors_without(colors.drop_last(), module).push(colors.last())
    }
}

fn remove_color(colors: &Vec<(StatusLineModule, StatusLineColor)>, module: StatusLineModule)
    -> (rest: Vec<(StatusLineModule, StatusLineColor)>)
    ensures
        rest@ == colors_without(colors@, module),
{
    let mut rest: Vec<(StatusLineModule, StatusLineColor)> = Vec::new();
    let mut i: usize = 0;
    proof {
        assert(colors@.take(0) =~= Seq::empty());
    }
    while i < colors.len()
        invariant
            i <= colors@.len(),
            rest@ == colors_without(colors@.take(i as int), module),
        decreases colors@.len() - i,
    {
        if colors[i].0 != module {
            rest.push(colors[i]);
        }
        i += 1;
        proof {
            assert(colors@.take(i as int).drop_last() =~= colors@.take(i - 1));
        }
    }
    proof {
        assert(colors@.take(i as int) =~= colors@);
    }
    rest
}

/// The rows with a module back at its default place.
pub open spec fn rows_reset(rows: Seq<StatusLineModule>, module: StatusLineModule) -> Seq<
    StatusLineModule,
> {
    let rest = without(rows, module);
    rest.insert(default_place(rest, module), module)
}

/// Shows a module at its default place and in its default colour.
pub fn reset_status_line_module(
    config: &mut StatusLineConfig,
    rows: &mut Vec<StatusLineModule>,
    module: StatusLineModule,
    hint: StatusLineModule,
)
    ensures
        final(config).colors@ == colors_without(old(config).colors@, module),
        final(rows)@ == rows_after(
            old(config).modules@,
            rows_reset(old(rows)@, module),
            module,
            true,
            hint,
        ),
        final(config).modules@ == in_row_order(
            modules_after(old(config).modules@, module, true),
            final(rows)@,
        ),
{
    config.colors = remove_color(&config.colors, module);
    let mut rest: Vec<StatusLineModule> = remove_module(rows, module);
    let mut at: usize = 0;
    proof {
        assert(rest@.skip(0) =~= rest@);
    }
    while at < rest.len() && rest[at].index <= module.index
        invariant
            at <= rest@.len(),
            default_place(rest@, module) == at + default_place(rest@.skip(at as int), module),
        decreases rest@.len() - at,
    {
        proof {
            let tail = rest@.skip(at as int);
            assert(tail[0] == rest@[at as int]);
            assert(tail.drop_first() =~= rest@.skip(at + 1));
        }
        at += 1;
    }
    proof {
        let tail = rest@.skip(at as int);
        if at < rest@.len() {
            assert(tail[0] == rest@[at as int]);
        }
    }
    rest.insert(at, module);
    *rows = rest;
    set_status_line_module_enabled(config, rows, module, true, hint);
}

/// The colour of a module: the one that was chosen, or its own.
pub open spec fn color_of(
    colors: Seq<(StatusLineModule, StatusLineColor)>,
    catalog: StatusLineCatalog,
    module: StatusLineModule,
) -> StatusLineColor
    decreases colors.len(),
{
    if colors.len() == 0 {
        catalog.default_colors@[module.index as int]
    } else if colors.last().0 == module {
        colors.last().1
    } else {
        color_of(colors.drop_last(), catalog, module)
    }
}

impl StatusLineConfig {
    /// The colour of a module.
    pub fn color(&self, catalog: &StatusLineCatalog, module: StatusLineModule) -> (color:
        StatusLineColor)
        requires
            catalog.valid(),
            catalog.has(module),
        ensures
            color == color_of(self.colors@, *catalog, module),
    {
        let mut n: usize = self.colors.len();
        proof {
            assert(self.colors@.take(n as int) =~= self.colors@);
        }
        while n > 0
            invariant
                n <= self.colors@.len(),
                color_of(self.colors@, *catalog, module) == color_of(
                    self.colors@.take(n as int),
                    *catalog,
                    module,
                ),
            decreases n,
        {
            proof {
                assert(self.colors@.take(n as int).last() == self.colors@[n - 1]);
                assert(self.colors@.take(n as int).drop_last() =~= self.colors@.take(n - 1));
            }
            if self.colors[n - 1].0 == module {
                return self.colors[n - 1].1;
            }
            n -= 1;
        }
        catalog.default_colors[module.index as usize]
    }

    /// Chooses the colour of a module.
    pub fn set_color(&mut self, module: StatusLineModule, color: StatusLineColor)
        ensures
            final(self).modules == old(self).modules,
            final(self).colors@ == colors_without(old(self).colors@, module).push((module, color)),
    {
        self.colors = remove_color(&self.colors, module);
        self.colors.push((module, color));
    }
}

/// A colour that was chosen is the colour of its module, and of no other.
pub proof fn law_chosen_colors_are_shown(
    colors: Seq<(StatusLineModule, StatusLineColor)>,
    catalog: StatusLineCatalog,
    module: StatusLineModule,
    color: StatusLineColor,
    other: StatusLineModule,
)
    ensures
        ({
            let after = colors_without(colors, module).push((module, color));
            &&& color_of(after, catalog, module) == color
            &&& other != module ==> color_of(after, catalog, other) == color_of(
                colors,
                catalog,
                other,
            )
        }),
{
    let rest = colors_without(colors, module);
    assert(rest.push((module, color)).drop_last() =~= rest);
    if other != module {
        lemma_colors_without(colors, catalog, module, other);
    }
}

proof fn lemma_colors_without(
    colors: Seq<(StatusLineModule, StatusLineColor)>,
    catalog: StatusLineCatalog,
    module: StatusLineModule,
    other: StatusLineModule,
)
    requires
        other != module,
    ensures
        color_of(colors_without(colors, module), catalog, other) == color_of(
            colors,
            catalog,
            other,
        ),
    decreases colors.len(),
{
    if colors.len() > 0 {
        lemma_colors_without(colors.drop_last(), catalog, module, other);
        let rest = colors_without(colors.drop_last(), module);
        assert(rest.push(colors.last()).drop_last() =~= rest);
    }
}

/// What the editor of the status line is doing.
#[derive(Debug)]
pub enum StatusLineEditorMode {
    Modules,
    Colors { module: StatusLineModule, list: ListState },
    Hex { module: StatusLineModule, input: String, cursor: usize },
}

/// The hexadecimal digit that a character is.
pub open spec fn hex_value(c: char) -> Option<u8> {
    let u = c as u32;
    if 48 <= u <= 57 {
        Some((u - 48) as u8)
    } else if 65 <= u <= 70 {
        Some((u - 55) as u8)
    } else if 97 <= u <= 102 {
        Some((u - 87) as u8)
    } else {
        None
    }
}

fn hex_digit(c: char) -> (value: Option<u8>)
    ensures
        value == hex_value(c),
        value matches Some(v) ==> v < 16,
{
    let u: u32 = c as u32;
    if 48 <= u && u <= 57 {
        Some((u - 48) as u8)
    } else if 65 <= u && u <= 70 {
        Some((u - 55) as u8)
    } else if 97 <= u && u <= 102 {
        Some((u - 87) as u8)
    } else {
        None
    }
}

/// The byte that two hexadecimal digits are.
pub open spec fn hex_byte(high: char, low: char) -> Option<u8> {
    match (hex_value(high), hex_value(low)) {
        (Some(h), Some(l)) => Some((16 * h + l) as u8),
        _ => None,
    }
}

/// The colour that `#RRGGBB` stands for.
pub open spec fn hex_color(text: Seq<char>) -> Option<StatusLineColor> {
    if text.len() == 7 && text[0] == '#' {
        match (
            hex_byte(text[1], text[2]),
            hex_byte(text[3], text[4]),
            hex_byte(text[5], text[6]),
        ) {
            (Some(red), Some(green), Some(blue)) => Some(StatusLineColor::Rgb(red, green, blue)),
            _ => None,
        }
    } else {
        None
    }
}

fn parse_byte(high: char, low: char) -> (value: Option<u8>)
    ensures
        value == hex_byte(high, low),
{
    match (hex_digit(high), hex_digit(low)) {
        (Some(h), Some(l)) => Some(16 * h + l),
        _ => None,
    }
}

/// Reads a colour written as `#RRGGBB`.
pub fn parse_hex_color(text: &str) -> (color: Option<StatusLineColor>)
    ensures
        color == hex_color(text@),
{
    let chars: Vec<char> = chars_of(text);
    if chars.len() != 7 || chars[0] != '#' {
        return None;
    }
    match (
        parse_byte(chars[1], chars[2]),
        parse_byte(chars[3], chars[4]),
        parse_byte(chars[5], chars[6]),
    ) {
        (Some(red), Some(green), Some(blue)) => Some(StatusLineColor::Rgb(red, green, blue)),
        _ => None,
    }
}

/// A hexadecimal digit in upper case.
pub open spec fn hex_char(value: int) -> char {
    if value < 10 { (value + 48) as char } else { (value + 55) as char }
}

fn upper_hex(value: u8) -> (c: char)
    requires
        value < 16,
    ensures
        c == hex_char(value as int),
{
    if value < 10 {
        (value + 48) as char
    } else {
        (value + 55) as char
    }
}

/// The text that a custom colour is edited in, starting from a colour.
pub open spec fn hex_text(color: StatusLineColor) -> Seq<char> {
    match color {
        StatusLineColor::Rgb(red, green, blue) => seq![
            '#',
            hex_char(red as int / 16),
            hex_char(red as int % 16),
            hex_char(green as int / 16),
            hex_char(green as int % 16),
            hex_char(blue as int / 16),
            hex_char(blue as int % 16),
        ],
        StatusLineColor::Named(_) => seq!['#'],
    }
}

/// The text that a custom colour is edited in.
pub fn hex_input(color: StatusLineColor) -> (text: String)
    ensures
        text@ == hex_text(color),
{
    let mut text: String = String::new();
    text.push('#');
    if let StatusLineColor::Rgb(red, green, blue) = color {
        text.push(upper_hex(red / 16));
        text.push(upper_hex(red % 16));
        text.push(upper_hex(green / 16));
        text.push(upper_hex(green % 16));
        text.push(upper_hex(blue / 16));
        text.push(upper_hex(blue % 16));
    }
    proof {
        assert(text@ =~= hex_text(color));
    }
    text
}

/// A custom colour that is not changed is kept.
pub proof fn law_hex_colors_are_read_back(red: u8, green: u8, blue: u8)
    ensures
        hex_color(hex_text(StatusLineColor::Rgb(red, green, blue))) == Some(
            StatusLineColor::Rgb(red, green, blue),
        ),
{
    lemma_hex_byte(red);
    lemma_hex_byte(green);
    lemma_hex_byte(blue);
}

proof fn lemma_hex_byte(value: u8)
    ensures
        hex_byte(hex_char(value as int / 16), hex_char(value as int % 16)) == Some(value),
{
    let h = value as int / 16;
    let l = value as int % 16;
    assert(0 <= h < 16 && 0 <= l < 16);
    assert(hex_value(hex_char(h)) == Some(h as u8));
    assert(hex_value(hex_char(l)) == Some(l as u8));
    assert(16 * h + l == value);
}

/// The editor of the status line.
#[derive(Debug)]
pub struct StatusLineEditor {
    pub config: StatusLineConfig,
    pub rows: Vec<StatusLineModule>,
    pub list: ListState,
    pub mode: StatusLineEditorMode,
}

/// What is done to the module under the cursor.
#[derive(Clone, Copy, Debug, PartialEq, Eq, Structural)]
pub enum ModuleCommand {
    Earlier,
    Later,
    /// Show the module, or no longer.
    Toggle,
    PickColor,
    Reset,
}

/// What a key other than a movement does to the module under the cursor.
pub open spec fn module_command(key: SurfaceKey) -> Option<ModuleCommand> {
    if key.code == KeyCode::Left {
        Some(ModuleCommand::Earlier)
    } else if key.code == KeyCode::Right {
        Some(ModuleCommand::Later)
    } else if !key.key.modifiers.is_empty() {
        None
    } else if key.code == KeyCode::Enter {
        Some(ModuleCommand::Toggle)
    } else if key.code == KeyCode::Char('c') {
        Some(ModuleCommand::PickColor)
    } else if key.code == KeyCode::Char('r') {
        Some(ModuleCommand::Reset)
    } else {
        None
    }
}

fn command_of(key: SurfaceKey) -> (command: Option<ModuleCommand>)
    ensures
        command == module_command(key),
{
    if key.code == KeyCode::Left {
        Some(ModuleCommand::Earlier)
    } else if key.code == KeyCode::Right {
        Some(ModuleCommand::Later)
    } else if !key.key.modifiers.is_empty() {
        None
    } else if key.code == KeyCode::Enter {
        Some(ModuleCommand::Toggle)
    } else if key.code == KeyCode::Char('c') {
        Some(ModuleCommand::PickColor)
    } else if key.code == KeyCode::Char('r') {
        Some(ModuleCommand::Reset)
    } else {
        None
    }
}

impl StatusLineEditor {
    /// The editor shows modules that there are.
    pub open spec fn valid(self, catalog: StatusLineCatalog) -> bool {
        &&& catalog.valid()
        &&& forall|i: int| 0 <= i < self.rows@.len() ==> catalog.has(#[trigger] self.rows@[i])
        &&& match self.mode {
            StatusLineEditorMode::Modules => true,
            StatusLineEditorMode::Colors { module, .. } => catalog.has(module),
            StatusLineEditorMode::Hex { module, .. } => catalog.has(module),
        }
    }

    /// The list before the key is looked at.
    pub open spec fn settled_list(self) -> ListState {
        self.list.reconciled(self.rows@.len() as int, VISIBLE_MENU_ITEMS as int)
    }

    /// The module under the cursor.
    pub open spec fn module_spec(self) -> Option<StatusLineModule> {
        if self.rows@.len() == 0 {
            None
        } else {
            Some(self.rows@[self.settled_list().at_spec()])
        }
    }

    /// The modules that are shown after a command.
    pub open spec fn modules_after_command(
        self,
        command: ModuleCommand,
        module: StatusLineModule,
        hint: StatusLineModule,
    ) -> Seq<StatusLineModule> {
        let shown = self.config.modules@;
        let rows = self.rows_after_command(command, module, hint);
        match command {
            ModuleCommand::Earlier => modules_moved(shown, module, true),
            ModuleCommand::Later => modules_moved(shown, module, false),
            ModuleCommand::Toggle => in_row_order(
                modules_after(shown, module, !shown.contains(module)),
                rows,
            ),
            ModuleCommand::Reset => in_row_order(modules_after(shown, module, true), rows),
            ModuleCommand::PickColor => shown,
        }
    }

    /// The rows after a command.
    pub open spec fn rows_after_command(
        self,
        command: ModuleCommand,
        module: StatusLineModule,
        hint: StatusLineModule,
    ) -> Seq<StatusLineModule> {
        let shown = self.config.modules@;
        match command {
            ModuleCommand::Earlier => rows_moved(shown, self.rows@, module, true),
            ModuleCommand::Later => rows_moved(shown, self.rows@, module, false),
            ModuleCommand::Toggle => rows_after(
                shown,
                self.rows@,
                module,
                !shown.contains(module),
                hint,
            ),
            ModuleCommand::Reset => rows_after(
                shown,
                rows_reset(self.rows@, module),
                module,
                true,
                hint,
            ),
            ModuleCommand::PickColor => self.rows@,
        }
    }

    /// The effect of `modules_key`.
    pub open spec fn modules_key_effect(
        before: Self,
        after: Self,
        key: SurfaceKey,
        catalog: StatusLineCatalog,
    ) -> bool {
        &&& (match (action_of(key.code), module_command(key), before.module_spec()) {
                (None, Some(command), Some(module)) => {
                    &&& after.config.modules@ == before.modules_after_command(
                        command,
                        module,
                        catalog.hint,
                    )
                    &&& after.config.colors@ == if command == ModuleCommand::Reset {
                        colors_without(before.config.colors@, module)
                    } else {
                        before.config.colors@
                    }
                    &&& after.rows@ == before.rows_after_command(
                        command,
                        module,
                        catalog.hint,
                    )
                    &&& if command == ModuleCommand::PickColor {
                        &&& after.list == before.settled_list()
                        &&& if module == catalog.mode {
                            after.mode is Modules
                        } else {
                            after.mode == (StatusLineEditorMode::Colors {
                                module,
                                list: settled(
                                    catalog.named_colors + 2,
                                    color_choice_index(
                                        catalog.default_colors@[module.index as int],
                                        color_of(before.config.colors@, catalog, module),
                                        catalog.named_colors as int,
                                    ),
                                    0,
                                    VISIBLE_MENU_ITEMS as int,
                                ),
                            })
                        }
                    } else {
                        &&& after.mode is Modules
                        &&& after.list == before.settled_list().selecting(
                            if after.rows@.contains(module) {
                                position(after.rows@, module)
                            } else {
                                0
                            },
                            VISIBLE_MENU_ITEMS as int,
                        )
                    }
                },
                _ => {
                    &&& after.config == before.config
                    &&& after.rows == before.rows
                    &&& after.mode is Modules
                    &&& after.list == list_after(
                        before.list,
                        before.rows@.len() as int,
                        VISIBLE_MENU_ITEMS as int,
                        key.code,
                    )
                },
            })
    }

    /// A key among the modules.
    pub fn modules_key(&mut self, key: SurfaceKey, catalog: &StatusLineCatalog)
        requires
            old(self).valid(*catalog),
            old(self).mode is Modules,
        ensures
            Self::modules_key_effect(*old(self), *final(self), key, *catalog),
    {
        let moved: bool = move_list(
            &mut self.list,
            self.rows.len(),
            VISIBLE_MENU_ITEMS,
            key.code,
        );
        if moved || self.rows.len() == 0 {
            return;
        }
        let module: StatusLineModule = self.rows[self.list.at()];
        match command_of(key) {
            None => {},
            Some(ModuleCommand::PickColor) => {
                if status_line_module_color_editable(catalog, module) {
                    let choices: usize = status_line_color_choices(catalog.named_colors).len();
                    let index: usize = status_line_color_choice_index(
                        catalog.default_colors[module.index as usize],
                        self.config.color(catalog, module),
                        catalog.named_colors,
                    );
                    self.mode =
                    StatusLineEditorMode::Colors {
                        module,
                        list: ListState::selectable_at(choices, index, VISIBLE_MENU_ITEMS),
                    };
                }
            },
            Some(command) => {
                match command {
                    ModuleCommand::Earlier => {
                        move_status_line_module(&mut self.config, &mut self.rows, module, true);
                    },
                    ModuleCommand::Later => {
                        move_status_line_module(&mut self.config, &mut self.rows, module, false);
                    },
                    ModuleCommand::Toggle => {
                        let shown: bool = find(self.config.modules.as_slice(), module)
                            < self.config.modules.len();
                        set_status_line_module_enabled(
                            &mut self.config,
                            &mut self.rows,
                            module,
                            !shown,
                            catalog.hint,
                        );
                    },
                    _ => {
                        reset_status_line_module(
                            &mut self.config,
                            &mut self.rows,
                            module,
                            catalog.hint,
                        );
                    },
                }
                let at: usize = find(self.rows.as_slice(), module);
                let at: usize = if at < self.rows.len() {
                    at
                } else {
                    0
                };
                self.list.select(at, VISIBLE_MENU_ITEMS);
            },
        }
    }

    /// The effect of `colors_key`.
    pub open spec fn colors_key_effect(
        before: Self,
        after: Self,
        key: SurfaceKey,
        catalog: StatusLineCatalog,
    ) -> bool {
        &&& (after.rows == before.rows)
        &&& (after.list == before.list)
        &&& (after.config.modules == before.config.modules)
        &&& (match before.mode {
                StatusLineEditorMode::Colors { module, list } => {
                    let count = catalog.named_colors + 2;
                    let moved = list_after(list, count, VISIBLE_MENU_ITEMS as int, key.code);
                    if action_of(key.code) is None && key.code == KeyCode::Enter
                        && key.key.modifiers.is_empty() {
                        match color_choices(catalog.named_colors as int)[moved.at_spec()] {
                            StatusLineColorChoice::Default => {
                                &&& after.mode is Modules
                                &&& after.config.colors@ == colors_without(
                                    before.config.colors@,
                                    module,
                                ).push((module, catalog.default_colors@[module.index as int]))
                            },
                            StatusLineColorChoice::Named(color) => {
                                &&& after.mode is Modules
                                &&& after.config.colors@ == colors_without(
                                    before.config.colors@,
                                    module,
                                ).push((module, color))
                            },
                            StatusLineColorChoice::Custom => {
                                &&& after.config.colors == before.config.colors
                                &&& after.mode matches StatusLineEditorMode::Hex {
                                    module: edited,
                                    input,
                                    cursor,
                                } && edited == module && input@ == hex_text(
                                    color_of(before.config.colors@, catalog, module),
                                ) && cursor == utf8_len(input@)
                            },
                        }
                    } else {
                        &&& after.config.colors == before.config.colors
                        &&& after.mode == (StatusLineEditorMode::Colors {
                            module,
                            list: moved,
                        })
                    }
                },
                _ => true,
            })
    }

    /// A key where a colour is chosen.
    pub fn colors_key(&mut self, key: SurfaceKey, catalog: &StatusLineCatalog)
        requires
            old(self).valid(*catalog),
            old(self).mode is Colors,
        ensures
            Self::colors_key_effect(*old(self), *final(self), key, *catalog),
    {
        let (module, mut list) = match &self.mode {
            StatusLineEditorMode::Colors { module, list } => (*module, *list),
            _ => {
                return;
            },
        };
        let choices = status_line_color_choices(catalog.named_colors);
        let moved: bool = move_list(&mut list, choices.len(), VISIBLE_MENU_ITEMS, key.code);
        if moved || key.code != KeyCode::Enter || !key.key.modifiers.is_empty() {
            self.mode = StatusLineEditorMode::Colors { module, list };
            return;
        }
        match choices[list.at()] {
            StatusLineColorChoice::Default => {
                self.config.set_color(module, catalog.default_colors[module.index as usize]);
                self.mode = StatusLineEditorMode::Modules;
            },
            StatusLineColorChoice::Named(color) => {
                self.config.set_color(module, color);
                self.mode = StatusLineEditorMode::Modules;
            },
            StatusLineColorChoice::Custom => {
                let input: String = hex_input(self.config.color(catalog, module));
                let cursor: usize = cursor_at_end(input.as_str());
                self.mode = StatusLineEditorMode::Hex { module, input, cursor };
            },
        }
    }

    /// The effect of `hex_key`.
    pub open spec fn hex_key_effect(
        before: Self,
        after: Self,
        key: SurfaceKey,
        refused: bool,
    ) -> bool {
        &&& (after.rows == before.rows)
        &&& (after.list == before.list)
        &&& (after.config.modules == before.config.modules)
        &&& (match before.mode {
                StatusLineEditorMode::Hex { module, input, cursor } => {
                    let submitted = key.key.code == KeyCode::Enter && key.key.modifiers.is_empty();
                    &&& refused == (submitted && hex_color(input@) is None)
                    &&& if submitted && hex_color(input@) is Some {
                        &&& after.mode is Modules
                        &&& after.config.colors@ == colors_without(
                            before.config.colors@,
                            module,
                        ).push((module, hex_color(input@)->0))
                    } else {
                        &&& after.config.colors == before.config.colors
                        &&& after.mode matches StatusLineEditorMode::Hex {
                            module: edited,
                            input: after,
                            cursor: at,
                        } && edited == module && if !submitted && field_takes(
                            input@,
                            cursor as int,
                            key.key,
                        ) {
                            field_is(
                                after@,
                                at as int,
                                field_after(input@, cursor as int, key.key),
                            )
                        } else {
                            after@ == input@ && at == cursor
                        }
                    }
                },
                _ => true,
            })
    }

    /// A key where a custom colour is written; the result says whether the
    /// colour was refused.
    pub fn hex_key(&mut self, key: SurfaceKey) -> (refused: bool)
        requires
            old(self).mode is Hex,
        ensures
            Self::hex_key_effect(*old(self), *final(self), key, refused),
    {
        let (module, input, cursor) = match &self.mode {
            StatusLineEditorMode::Hex { module, input, cursor } => (
                *module,
                input.clone(),
                *cursor,
            ),
            _ => {
                return false;
            },
        };
        if key.key.code == KeyCode::Enter && key.key.modifiers.is_empty() {
            return match parse_hex_color(input.as_str()) {
                None => true,
                Some(color) => {
                    self.config.set_color(module, color);
                    self.mode = StatusLineEditorMode::Modules;
                    false
                },
            };
        }
        let mut after: String = input;
        let mut at: usize = cursor;
        if edit_field(&mut after, &mut at, key.key) {
            self.mode = StatusLineEditorMode::Hex { module, input: after, cursor: at };
        }
        false
    }
}

} // verus!
