//! The way of a key: it pages through the surface on top, or goes to it, and what it asks
//! for is followed.

use vstd::prelude::*;
use crate::app::{same_but_surfaces, App, CloseStep};
use crate::control::{paging, paging_action, SurfaceKey};
use crate::follow::followed;
use crate::paging::{page_surface, paged};
use crate::surface::Surface;
use crate::surface_key::{
    handle_surface_key, key_handled, takes_keys, KeyContext, KeyStep, SurfaceStep,
};

verus! {

/// What a key leaves to the client.
#[derive(Debug)]
pub enum KeyRequest {
    Nothing,
    /// A surface was closed, which asks for this.
    Close(CloseStep),
    /// The key asks for this.
    Perform(SurfaceStep),
}

/// What became of a key: what is left to the client, and the request that waited and is to
/// be shown now.
#[derive(Debug)]
pub struct Routed {
    pub request: KeyRequest,
    pub deferred: Option<u128>,
}

/// What a key that pages makes of the surface on top, where that takes it before the
/// surface sees the key.
pub open spec fn page_taken(app: App, key: SurfaceKey, context: KeyContext) -> Option<Surface> {
    if app.surfaces@.len() > 0 && paging(key.key) is Some {
        paged(app.surfaces@.last(), key.key.code, context)
    } else {
        None
    }
}

/// What is left to the client of a step.
pub open spec fn requested(
    handled: App,
    after: App,
    step: KeyStep,
    names: Seq<String>,
    request: KeyRequest,
) -> bool {
    match step {
        KeyStep::Nothing => after == handled && request is Nothing,
        KeyStep::Close(closing) => after == handled && request == KeyRequest::Close(closing),
        KeyStep::Surface(outcome) => exists|perform: bool|
            #[trigger] followed(handled, after, outcome, names, perform) && request == if perform {
                KeyRequest::Perform(outcome)
            } else {
                KeyRequest::Nothing
            },
    }
}

/// What a key does: it pages through the surface on top where that takes it, whoever looks
/// on, and is handled by that surface otherwise, whose step is followed. What was clicked last is forgotten,
/// and a request that waits is shown once no surface is open, whatever came of the key.
pub open spec fn routed(
    before: App,
    after: App,
    key: SurfaceKey,
    context: KeyContext,
    allowed: bool,
    result: Routed,
) -> bool {
    &&& after.last_picker_click is None
    &&& result.deferred == after.deferred_spec()
    &&& match page_taken(before, key, context) {
        Some(turned) => {
            &&& result.request is Nothing
            &&& after.surfaces@ == before.surfaces@.drop_last().push(turned)
            &&& same_but_surfaces(after, App { last_picker_click: None, ..before })
        },
        None => exists|handled: App, step: KeyStep|
            #[trigger] key_handled(before, handled, key, context, allowed, step) && requested(
                handled,
                after,
                step,
                context.names@,
                result.request,
            ),
    }
}

/// Pages through the surface on top, where that takes the key.
fn page(app: &mut App, key: SurfaceKey, context: &KeyContext) -> (taken: bool)
    requires
        old(app).surfaces@.len() > 0 ==> takes_keys(old(app).surfaces@.last(), *context),
    ensures
        taken == page_taken(*old(app), key, *context) is Some,
        final(app).surfaces@ == (if taken {
            old(app).surfaces@.drop_last().push(page_taken(*old(app), key, *context)->0)
        } else {
            old(app).surfaces@
        }),
        same_but_surfaces(*old(app), *final(app)),
{
    let count: usize = app.surfaces.len();
    if count == 0 || paging_action(key.key).is_none() {
        return false;
    }
    let ghost before = app.surfaces@;
    let taken: bool = page_surface(&mut app.surfaces[count - 1], key.key.code, context);
    proof {
        assert(app.surfaces@ =~= before.drop_last().push(app.surfaces@.last()));
        assert(before =~= before.drop_last().push(before.last()));
    }
    taken
}

/// Routes a key to the surface on top, and then gives a request that waits a chance to be
/// shown.
pub fn route_key(app: &mut App, key: SurfaceKey, context: &KeyContext, allowed: bool) -> (result:
    Routed)
    requires
        old(app).surfaces@.len() > 0 ==> takes_keys(old(app).surfaces@.last(), *context),
    ensures
        routed(*old(app), *final(app), key, *context, allowed, result),
{
    let paged: bool = page(app, key, context);
    if paged {
        app.last_picker_click = None;
        return Routed { request: KeyRequest::Nothing, deferred: app.deferred() };
    }
    let step: KeyStep = handle_surface_key(app, key, context, allowed);
    let ghost handled = *app;
    let ghost asked = step;
    let request: KeyRequest = match step {
        KeyStep::Nothing => KeyRequest::Nothing,
        KeyStep::Close(step) => KeyRequest::Close(step),
        KeyStep::Surface(step) => {
            let perform: bool = app.follow(&step, context.names.as_slice());
            proof {
                assert(followed(handled, *app, step, context.names@, perform));
            }
            if perform {
                KeyRequest::Perform(step)
            } else {
                KeyRequest::Nothing
            }
        },
    };
    proof {
        assert(key_handled(*old(app), handled, key, *context, allowed, asked));
        assert(requested(handled, *app, asked, context.names@, request));
    }
    Routed { request, deferred: app.deferred() }
}

/// A request that waits for its surface gets its chance after every key: once no surface
/// is open, it is shown.
pub proof fn law_waiting_requests_are_shown(
    before: App,
    after: App,
    key: SurfaceKey,
    context: KeyContext,
    allowed: bool,
    result: Routed,
)
    requires
        routed(before, after, key, context, allowed, result),
    ensures
        after.surfaces@.len() == 0 && after.pending_interaction is Some ==> result.deferred
            == after.pending_interaction,
        after.surfaces@.len() > 0 ==> result.deferred is None,
        after.last_picker_click is None,
{
}

/// A key that pages stays with the surface on top: it closes none and asks for nothing,
/// also where an observer may not use the surface.
pub proof fn law_paging_keeps_the_surface(
    before: App,
    after: App,
    key: SurfaceKey,
    context: KeyContext,
    allowed: bool,
    result: Routed,
)
    requires
        routed(before, after, key, context, allowed, result),
        page_taken(before, key, context) is Some,
    ensures
        result.request is Nothing,
        after.surfaces@.len() == before.surfaces@.len(),
        after.surfaces@.drop_last() == before.surfaces@.drop_last(),
        paged(before.surfaces@.last(), key.key.code, context) == Some(after.surfaces@.last()),
{
    assert(after.surfaces@.drop_last() =~= before.surfaces@.drop_last());
}

} // verus!
