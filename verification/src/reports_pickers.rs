//! What becomes of dialogs and pickers once the client has done what a step asked for.

use vstd::prelude::*;
use vstd::string::*;
use crate::app::{
    conversation_position, find_conversation, leaves_preview, same_but_surfaces, App,
    HistoryPreviewState,
};
use crate::dialogs::RuleDisplay;
use crate::interaction::{PatternEdit, PermissionScope};
use crate::list::settled;
use crate::pickers::{
    can_select, conversation_capacity, conversation_indices, conversation_picker_indexes,
    conversation_picker_item_capacity, history_filtered, indices_valid, next_selectable,
    visible_position, ConversationRow, Conversations, HistoryTree,
};
use crate::render::concat3;
use crate::reports::only_shown;
use crate::surface::Surface;

verus! {

/// The surfaces with another one on top.
pub open spec fn with_top(surfaces: Seq<Surface>, top: Surface) -> Seq<Surface> {
    surfaces.drop_last().push(top)
}

impl App {
    /// Opens the editor of a rule: one that is saved already, or else one that a
    /// permission would set.
    pub fn open_rule_edit(
        &mut self,
        saved: bool,
        edit: PatternEdit,
        scope: PermissionScope,
        rule: RuleDisplay,
    )
        ensures
            only_shown(
                *old(self),
                *final(self),
                old(self).surfaces@.push(
                    if saved {
                        Surface::PersistentPermissionEdit { edit, scope, rule }
                    } else {
                        Surface::PermissionRuleEdit { edit, scope, rule }
                    },
                ),
            ),
    {
        self.surfaces.push(
            if saved {
                Surface::PersistentPermissionEdit { edit, scope, rule }
            } else {
                Surface::PermissionRuleEdit { edit, scope, rule }
            },
        );
    }

    /// Another mode was selected to implement the plan on top: the model that is used in
    /// it is shown, if one is set.
    pub fn mode_shown(&mut self, selection: Option<(String, String)>)
        requires
            old(self).surfaces@.len() > 0,
        ensures
            same_but_surfaces(*old(self), *final(self)),
            final(self).surfaces@.len() == old(self).surfaces@.len(),
            final(self).surfaces@.drop_last() == old(self).surfaces@.drop_last(),
            match (old(self).surfaces@.last(), selection) {
                (
                    Surface::PlanCompletion { plan, modes, colors, model, context_percent },
                    Some((provider, name)),
                ) => final(self).surfaces@.last() matches Surface::PlanCompletion {
                    plan: new_plan,
                    modes: new_modes,
                    colors: new_colors,
                    model: new_model,
                    context_percent: new_percent,
                } && new_plan == plan && new_modes == modes && new_colors == colors && new_percent
                    == context_percent && new_model@ == provider@ + "/"@ + name@,
                (top, _) => final(self).surfaces@.last() == top,
            },
    {
        let ghost before = self.surfaces@;
        let top: usize = self.surfaces.len() - 1;
        if let Some((provider, name)) = selection {
            let surface: &mut Surface = &mut self.surfaces[top];
            if let Surface::PlanCompletion { model, .. } = surface {
                *model = concat3(provider.as_str(), "/", name.as_str());
            }
        }
        proof {
            assert(self.surfaces@.drop_last() =~= before.drop_last());
        }
    }

    /// An earlier message is looked at from now on, in place of the conversation `live`.
    pub fn history_previewed(&mut self, live: u64)
        ensures
            previews(*old(self), *final(self), live),
    {
        self.history_preview = Some(HistoryPreviewState { latest_live: live });
        self.observer_command = String::new();
    }

    /// The conversation goes on from an earlier message: the tree of messages closes.
    pub fn forked(&mut self)
        requires
            old(self).surfaces@.len() > 0,
        ensures
            only_shown(*old(self), *final(self), old(self).surfaces@.drop_last()),
    {
        let ghost before = self.surfaces@;
        let _ = self.surfaces.pop();
        proof {
            assert(self.surfaces@ =~= before.drop_last());
        }
    }

    /// The messages that are shown for the edited query of the tree on top were found:
    /// the one that was selected stays selected if it can.
    pub fn history_searched(
        &mut self,
        visible: &[usize],
        selected_source: Option<usize>,
        capacity: usize,
    )
        requires
            old(self).surfaces@.len() > 0,
            old(self).surfaces@.last() matches Surface::HistoryTree(tree) ==> indices_valid(
                tree.rows@,
                visible@,
            ),
        ensures
            only_shown(
                *old(self),
                *final(self),
                match old(self).surfaces@.last() {
                    Surface::HistoryTree(tree) => {
                        let kept = match selected_source {
                            None => visible@.len() as int,
                            Some(source) => visible_position(visible@, source),
                        };
                        let first = next_selectable(tree.rows@, visible@, 0);
                        with_top(
                            old(self).surfaces@,
                            Surface::HistoryTree(
                                HistoryTree {
                                    list: settled(
                                        visible@.len() as int,
                                        if kept < visible@.len() && can_select(
                                            tree.rows@,
                                            visible@,
                                            kept,
                                        ) {
                                            kept
                                        } else if first < visible@.len() {
                                            first
                                        } else {
                                            0
                                        },
                                        0,
                                        capacity as int,
                                    ),
                                    ..tree
                                },
                            ),
                        )
                    },
                    _ => old(self).surfaces@,
                },
            ),
    {
        let ghost before = self.surfaces@;
        let top: usize = self.surfaces.len() - 1;
        let surface: &mut Surface = &mut self.surfaces[top];
        if let Surface::HistoryTree(tree) = surface {
            tree.list = history_filtered(tree.rows.as_slice(), visible, selected_source, capacity);
        }
        proof {
            assert(self.surfaces@ =~= with_top(before, self.surfaces@.last()));
            assert(before =~= with_top(before, before.last()));
        }
    }

    /// The conversations that are shown for the edited query, or with archived ones or
    /// without, were found.
    pub fn conversations_found(&mut self, rows: Vec<ConversationRow>)
        requires
            old(self).surfaces@.len() > 0,
        ensures
            only_shown(
                *old(self),
                *final(self),
                match old(self).surfaces@.last() {
                    Surface::Conversations(picker) => with_top(
                        old(self).surfaces@,
                        Surface::Conversations(
                            Conversations {
                                rows,
                                list: settled(
                                    conversation_indices(rows@, ""@).len() as int,
                                    0,
                                    0,
                                    1,
                                ),
                                ..picker
                            },
                        ),
                    ),
                    _ => old(self).surfaces@,
                },
            ),
    {
        let ghost before = self.surfaces@;
        let top: usize = self.surfaces.len() - 1;
        let surface: &mut Surface = &mut self.surfaces[top];
        if let Surface::Conversations(picker) = surface {
            picker.restart(rows);
        }
        proof {
            assert(self.surfaces@ =~= with_top(before, self.surfaces@.last()));
            assert(before =~= with_top(before, before.last()));
        }
    }

    /// A conversation became a favourite, or it is none any more: it stays selected among
    /// the conversations in their new order.
    pub fn conversation_favoured(
        &mut self,
        rows: Vec<ConversationRow>,
        id: u128,
        viewport_rows: usize,
    )
        requires
            old(self).surfaces@.len() > 0,
        ensures
            only_shown(
                *old(self),
                *final(self),
                match old(self).surfaces@.last() {
                    Surface::Conversations(picker) => {
                        let visible = conversation_indices(rows@, ""@);
                        let position = conversation_position(rows@, visible, id);
                        with_top(
                            old(self).surfaces@,
                            Surface::Conversations(
                                Conversations {
                                    rows,
                                    list: picker.list.selecting(
                                        if position < visible.len() {
                                            position
                                        } else {
                                            0
                                        },
                                        picker.capacity(viewport_rows as int),
                                    ),
                                    ..picker
                                },
                            ),
                        )
                    },
                    _ => old(self).surfaces@,
                },
            ),
    {
        let ghost before = self.surfaces@;
        let top: usize = self.surfaces.len() - 1;
        let visible: Vec<usize> = conversation_picker_indexes(rows.as_slice(), "");
        let at: usize = match find_conversation(rows.as_slice(), visible.as_slice(), id) {
            Some(at) => at,
            None => 0,
        };
        let surface: &mut Surface = &mut self.surfaces[top];
        if let Surface::Conversations(picker) = surface {
            let shown: usize = conversation_picker_indexes(
                picker.rows.as_slice(),
                picker.query.as_str(),
            ).len();
            let capacity: usize = conversation_picker_item_capacity(
                viewport_rows,
                picker.include_archived,
                !picker.query.as_str().is_empty() && shown == 0,
            );
            picker.rows = rows;
            picker.list.select(at, capacity);
        }
        proof {
            assert(self.surfaces@ =~= with_top(before, self.surfaces@.last()));
            assert(before =~= with_top(before, before.last()));
        }
    }

    /// A conversation was archived: those that are left are listed.
    pub fn conversation_archived(&mut self, rows: Vec<ConversationRow>, viewport_rows: usize)
        requires
            old(self).surfaces@.len() > 0,
        ensures
            only_shown(
                *old(self),
                *final(self),
                match old(self).surfaces@.last() {
                    Surface::Conversations(picker) => with_top(
                        old(self).surfaces@,
                        Surface::Conversations(shrunk(picker, rows, viewport_rows as int)),
                    ),
                    _ => old(self).surfaces@,
                },
            ),
    {
        let ghost before = self.surfaces@;
        let top: usize = self.surfaces.len() - 1;
        let surface: &mut Surface = &mut self.surfaces[top];
        if let Surface::Conversations(picker) = surface {
            picker.shrink(rows, viewport_rows);
        }
        proof {
            assert(self.surfaces@ =~= with_top(before, self.surfaces@.last()));
            assert(before =~= with_top(before, before.last()));
        }
    }

    /// A conversation was deleted. Where it was the one that is open, the list closes and
    /// the result says to quit; else those that are left are listed.
    pub fn conversation_deleted(
        &mut self,
        open: bool,
        rows: Vec<ConversationRow>,
        viewport_rows: usize,
    ) -> (quit: bool)
        requires
            old(self).surfaces@.len() > 0,
        ensures
            quit == open,
            only_shown(
                *old(self),
                *final(self),
                if open {
                    old(self).surfaces@.drop_last()
                } else {
                    match old(self).surfaces@.last() {
                        Surface::Conversations(picker) => with_top(
                            old(self).surfaces@,
                            Surface::Conversations(shrunk(picker, rows, viewport_rows as int)),
                        ),
                        _ => old(self).surfaces@,
                    }
                },
            ),
    {
        if open {
            self.forked();
        } else {
            self.conversation_archived(rows, viewport_rows);
        }
        open
    }
}

/// A list of conversations once one of them is gone.
pub open spec fn shrunk(picker: Conversations, rows: Vec<ConversationRow>, viewport_rows: int)
    -> Conversations {
    Conversations {
        rows,
        list: picker.list.reconciled(
            conversation_indices(rows@, ""@).len() as int,
            conversation_capacity(viewport_rows, picker.include_archived, false),
        ),
        ..picker
    }
}

/// Whether an earlier message is looked at in place of the conversation `live`, and
/// nothing else differs but the command of an observer, which is empty.
pub open spec fn previews(before: App, after: App, live: u64) -> bool {
    &&& after.history_preview == Some(HistoryPreviewState { latest_live: live })
    &&& after.observer_command@.len() == 0
    &&& after == (App {
        history_preview: after.history_preview,
        observer_command: after.observer_command,
        ..before
    })
}

/// Looking at an earlier message and ending that again leads back to the conversation
/// that was left, with everything as it was but the command of an observer.
pub proof fn law_previews_are_left_again(
    before: App,
    during: App,
    after: App,
    live: u64,
    shown: Option<u64>,
)
    requires
        before.history_preview is None,
        previews(before, during, live),
        leaves_preview(during, after, shown),
    ensures
        shown == Some(live),
        after == (App { observer_command: after.observer_command, ..before }),
{
}

} // verus!
