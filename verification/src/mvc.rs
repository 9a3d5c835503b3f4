//! The dispatch core: one model, one view and one controller coordinated
//! through a strict command/notification protocol.
//!
//! [`MVCSystem`] owns the three roles and one nested-frame command queue.
//! Draining is depth-first: every handler invocation gets a fresh frame, and
//! a handler schedules further work through its scoped token with one of
//! three timings — `*_now` (dispatched synchronously, before the scheduling
//! call returns), `*_next` (appended to the handler's own frame) and
//! `*_later` (appended to the bottom frame, so it runs only after every
//! currently suspended level has been fully drained).
//!
//! The message payload types flow through the role traits as plain type
//! parameters (`MC`/`MN` for the model's command and notification, `VC` for
//! the view's command, `CN`/`CC` for the controller's notification and
//! command), so that each role trait stands on its own and none has to name
//! the other two in its own declaration.

use crate::command_queue::CommandList;
use vstd::prelude::*;

verus! {

/// One pending message: a command owned by one of the three roles, or a
/// cross-role notification awaiting translation.
///
/// The two notification variants are not terminal: when popped, they are
/// passed through the receiving role's translation hook, and the optional
/// command that the hook yields is dispatched immediately.
pub enum MVCMessage<MC, MN, VC, CN, CC> {
    /// A command for the model's handler.
    ModelCommand(MC),
    /// A model notification to be translated into an optional view command.
    ModelUpdateView(MN),
    /// A command for the view's handler.
    ViewCommand(VC),
    /// A controller notification to be translated into an optional model
    /// command.
    ControllerManipulatesModel(CN),
    /// A command for the controller's handler.
    ControllerCommand(CC),
}

impl<MC, MN, VC, CN, CC> MVCMessage<MC, MN, VC, CN, CC> {
    /// How many further dispatch steps a message can cause by itself: a
    /// notification dispatches the translated command, a command dispatches
    /// nothing beyond its own handler.
    pub open spec fn dispatch_depth(self) -> nat {
        match self {
            MVCMessage::ModelUpdateView(_) => 1,
            MVCMessage::ControllerManipulatesModel(_) => 1,
            _ => 0,
        }
    }
}

/// The orchestrating structure: one instance of each role plus the command
/// queue.  Its lifetime spans the whole interaction session.
pub struct MVCSystem<M, V, C, MC, MN, VC, CN, CC> {
    model: M,
    view: V,
    controller: C,
    command_list: CommandList<MVCMessage<MC, MN, VC, CN, CC>>,
}

impl<M, V, C, MC, MN, VC, CN, CC> MVCSystem<M, V, C, MC, MN, VC, CN, CC> where
    M: Model<V, C, VC, CN, CC, Command = MC, Notification = MN>,
    V: View<M, C, MC, MN, CN, CC, Command = VC>,
    C: Controller<M, V, MC, MN, VC, Command = CC, Notification = CN>,
 {
    /// The model instance.
    pub closed spec fn spec_model(self) -> M {
        self.model
    }

    /// The view instance.
    pub closed spec fn spec_view(self) -> V {
        self.view
    }

    /// The controller instance.
    pub closed spec fn spec_controller(self) -> C {
        self.controller
    }

    /// The command queue.
    pub closed spec fn spec_queue(self) -> CommandList<MVCMessage<MC, MN, VC, CN, CC>> {
        self.command_list
    }

    /// Builds a system from one instance of each role, with an empty command
    /// queue.
    pub fn new(model: M, view: V, controller: C) -> (r: Self)
        ensures
            r.spec_model() == model,
            r.spec_view() == view,
            r.spec_controller() == controller,
            r.spec_queue().active() == Seq::<MVCMessage<MC, MN, VC, CN, CC>>::empty(),
            r.spec_queue().stashed() == Seq::<Seq<MVCMessage<MC, MN, VC, CN, CC>>>::empty(),
    {
        MVCSystem { model, view, controller, command_list: CommandList::new() }
    }

    /// Read access to the model.
    pub fn model(&self) -> (r: &M)
        ensures
            *r == self.spec_model(),
    {
        &self.model
    }

    /// Read access to the view.
    pub fn view(&self) -> (r: &V)
        ensures
            *r == self.spec_view(),
    {
        &self.view
    }

    /// Read access to the controller.
    pub fn controller(&self) -> (r: &C)
        ensures
            *r == self.spec_controller(),
    {
        &self.controller
    }

    /// Wraps external input as a controller command, schedules it on the
    /// bottom frame and drains the queue, reporting whether the drain ran
    /// to exhaustion.
    ///
    /// When it reports `true` — always, unless the drain's defensive cap of
    /// `u64::MAX` dispatches in one call was reached, which no set of
    /// handlers that eventually stops scheduling ever does — control
    /// returns only once every frame has been exhausted, including all
    /// work the handlers scheduled while running, and the queue is left a
    /// single empty frame.
    pub fn process_input(&mut self, input: impl Into<CC>) -> (drained: bool)
        ensures
            drained ==> {
                &&& final(self).spec_queue().active().len() == 0
                &&& final(self).spec_queue().stashed().len() == 0
            },
    {
        self.command_list.add_command_to_bottom_frame(
            MVCMessage::ControllerCommand(input.into()),
        );
        self.exec_pending_commands()
    }

    /// Forwards `target` to the view's output-redirection hook, then drains
    /// any work the hook scheduled, reporting whether the drain ran to
    /// exhaustion (see [`Self::process_input`]).  When it reports `true`
    /// the queue is left a single empty frame.  The hook receives only the
    /// view, so when nothing was pending at entry — the normal case, every
    /// other entry point drains before returning — the drain succeeds and
    /// the model and the controller come back untouched.
    pub fn redirect_output_target(&mut self, target: Option<V::OutputTarget>) -> (drained: bool)
        ensures
            drained ==> {
                &&& final(self).spec_queue().active().len() == 0
                &&& final(self).spec_queue().stashed().len() == 0
            },
            old(self).spec_queue().pending().len() == 0 ==> {
                &&& drained
                &&& final(self).spec_model() == old(self).spec_model()
                &&& final(self).spec_controller() == old(self).spec_controller()
            },
    {
        self.view.redirect_output_target(target);
        self.exec_pending_commands()
    }

    /// Read-only pass-through to the view's output-sync hook with a default
    /// parameter.  Takes the system by shared reference, so it can neither
    /// change the command queue nor trigger a drain.
    pub fn sync_output(&self) where V::OutputParameter: Default {
        let mut param = <V::OutputParameter as Default>::default();
        self.view.sync_output_with_parameter(&self.model, &mut param);
    }

    /// Read-only pass-through to the view's output-sync hook.  Takes the
    /// system by shared reference, so it can neither change the command
    /// queue nor trigger a drain.
    pub fn sync_output_with_parameter(&self, param: &mut V::OutputParameter) {
        self.view.sync_output_with_parameter(&self.model, param);
    }

    /// Dispatches one message.  A role command gets a fresh frame and its
    /// role's handler; a notification runs through the receiving role's
    /// translation hook, and the optional command it yields is dispatched
    /// immediately in turn.
    fn exec_immediate_command(&mut self, command: MVCMessage<MC, MN, VC, CN, CC>)
        decreases command.dispatch_depth(),
    {
        match command {
            MVCMessage::ModelCommand(model_command) => {
                self.command_list.start_new_frame();
                let model_token = ModelToken { system: self };
                M::process_command(model_token, model_command);
            },
            MVCMessage::ModelUpdateView(model_notification) => {
                if let Some(view_command) = V::translate_model_notification(model_notification) {
                    self.exec_immediate_command(MVCMessage::ViewCommand(view_command));
                }
            },
            MVCMessage::ViewCommand(view_command) => {
                self.command_list.start_new_frame();
                let view_token = ViewToken { system: self };
                V::process_command(view_token, view_command);
            },
            MVCMessage::ControllerManipulatesModel(controller_notification) => {
                if let Some(model_command) = M::translate_controller_notification(
                    controller_notification,
                ) {
                    self.exec_immediate_command(MVCMessage::ModelCommand(model_command));
                }
            },
            MVCMessage::ControllerCommand(controller_command) => {
                self.command_list.start_new_frame();
                let controller_token = ControllerToken { system: self };
                C::process_command(controller_token, controller_command);
            },
        }
    }

    /// Dispatches one message after stashing the caller's frame, so the
    /// message's handler schedules into a scope of its own.
    fn exec_immediate_command_in_new_frame(&mut self, command: MVCMessage<MC, MN, VC, CN, CC>) {
        self.command_list.start_new_frame();
        self.exec_immediate_command(command);
    }

    /// Drains the queue depth-first: pops the earliest pending message,
    /// crossing frame boundaries, and dispatches it, until nothing remains
    /// at any nesting level.  Reports whether the queue was fully drained;
    /// `false` only when the defensive cap of `u64::MAX` dispatches in one
    /// call was reached, which no set of handlers that eventually stops
    /// scheduling ever does.  On a queue with nothing pending the drain
    /// always succeeds at once, dispatching no handler and leaving the
    /// roles untouched.
    fn exec_pending_commands(&mut self) -> (drained: bool)
        ensures
            drained ==> {
                &&& final(self).spec_queue().active().len() == 0
                &&& final(self).spec_queue().stashed().len() == 0
            },
            old(self).spec_queue().pending().len() == 0 ==> {
                &&& drained
                &&& final(self).spec_model() == old(self).spec_model()
                &&& final(self).spec_view() == old(self).spec_view()
                &&& final(self).spec_controller() == old(self).spec_controller()
            },
    {
        let mut budget: u64 = u64::MAX;
        loop
            invariant
                old(self).spec_queue().pending().len() == 0 ==> {
                    &&& budget == u64::MAX
                    &&& self.spec_queue().pending().len() == 0
                    &&& self.spec_model() == old(self).spec_model()
                    &&& self.spec_view() == old(self).spec_view()
                    &&& self.spec_controller() == old(self).spec_controller()
                },
            decreases budget,
        {
            if budget == 0 {
                return false;
            }
            budget = budget - 1;
            if let Some(command) = self.command_list.pop_command_and_maybe_frame() {
                self.exec_immediate_command(command);
            } else {
                return true;
            }
        }
    }
}

/// The scoped capability a model handler receives for the duration of its
/// own invocation: mutable access to the model, read access to the other
/// state, and the scheduling interface for model commands and
/// model-to-view notifications.
pub struct ModelToken<'a, M, V, C, MC, MN, VC, CN, CC> {
    system: &'a mut MVCSystem<M, V, C, MC, MN, VC, CN, CC>,
}

impl<'a, M, V, C, MC, MN, VC, CN, CC> ModelToken<'a, M, V, C, MC, MN, VC, CN, CC> where
    M: Model<V, C, VC, CN, CC, Command = MC, Notification = MN>,
    V: View<M, C, MC, MN, CN, CC, Command = VC>,
    C: Controller<M, V, MC, MN, VC, Command = CC, Notification = CN>,
 {
    /// The system this token gives scoped access to, in its present state.
    pub closed spec fn sys(self) -> MVCSystem<M, V, C, MC, MN, VC, CN, CC> {
        *self.system
    }

    /// Read access to the model.
    pub fn model(&self) -> (r: &M)
        ensures
            *r == self.sys().spec_model(),
    {
        &self.system.model
    }

    /// Mutable access to the model: the one role a model handler may mutate
    /// directly.
    pub fn model_mut(&mut self) -> (r: &mut M)
        ensures
            *r == old(self).sys().spec_model(),
            final(self).sys().spec_model() == *final(r),
            final(self).sys().spec_view() == old(self).sys().spec_view(),
            final(self).sys().spec_controller() == old(self).sys().spec_controller(),
            final(self).sys().spec_queue() == old(self).sys().spec_queue(),
    {
        &mut self.system.model
    }

    /// Dispatches `command` to the model's handler synchronously, in a fresh
    /// frame, before returning to the caller.
    pub fn exec_command_now(&mut self, command: MC) {
        self.system.exec_immediate_command_in_new_frame(MVCMessage::ModelCommand(command));
    }

    /// Appends `command` to the active frame: it runs after the commands
    /// already scheduled at this level, before any suspended outer level.
    pub fn exec_command_next(&mut self, command: MC)
        ensures
            final(self).sys().spec_queue().active() == old(self).sys().spec_queue().active().push(
                MVCMessage::ModelCommand(command),
            ),
            final(self).sys().spec_queue().stashed() == old(self).sys().spec_queue().stashed(),
            final(self).sys().spec_model() == old(self).sys().spec_model(),
            final(self).sys().spec_view() == old(self).sys().spec_view(),
            final(self).sys().spec_controller() == old(self).sys().spec_controller(),
    {
        self.system.command_list.add_command_to_current_frame(MVCMessage::ModelCommand(command));
    }

    /// Appends `command` to the bottom frame: it runs only after every
    /// currently pending message, at every nesting level, has been drained.
    pub fn exec_command_later(&mut self, command: MC)
        ensures
            final(self).sys().spec_queue().pending() == old(self).sys().spec_queue().pending().push(
                MVCMessage::ModelCommand(command),
            ),
            old(self).sys().spec_queue().stashed().len() == 0 ==> {
                &&& final(self).sys().spec_queue().active() == old(
                    self,
                ).sys().spec_queue().active().push(MVCMessage::ModelCommand(command))
                &&& final(self).sys().spec_queue().stashed() == old(
                    self,
                ).sys().spec_queue().stashed()
            },
            old(self).sys().spec_queue().stashed().len() > 0 ==> {
                &&& final(self).sys().spec_queue().active() == old(self).sys().spec_queue().active()
                &&& final(self).sys().spec_queue().stashed() == old(
                    self,
                ).sys().spec_queue().stashed().update(
                    0,
                    old(self).sys().spec_queue().stashed()[0].push(MVCMessage::ModelCommand(command)),
                )
            },
            final(self).sys().spec_model() == old(self).sys().spec_model(),
            final(self).sys().spec_view() == old(self).sys().spec_view(),
            final(self).sys().spec_controller() == old(self).sys().spec_controller(),
    {
        self.system.command_list.add_command_to_bottom_frame(MVCMessage::ModelCommand(command));
    }

    /// Translates `notification` through the view's hook and dispatches the
    /// resulting command, if any, synchronously before returning.
    pub fn update_view_now(&mut self, notification: MN) {
        self.system.exec_immediate_command_in_new_frame(
            MVCMessage::ModelUpdateView(notification),
        );
    }

    /// Appends the notification to the active frame.
    pub fn update_view_next(&mut self, notification: MN)
        ensures
            final(self).sys().spec_queue().active() == old(self).sys().spec_queue().active().push(
                MVCMessage::ModelUpdateView(notification),
            ),
            final(self).sys().spec_queue().stashed() == old(self).sys().spec_queue().stashed(),
            final(self).sys().spec_model() == old(self).sys().spec_model(),
            final(self).sys().spec_view() == old(self).sys().spec_view(),
            final(self).sys().spec_controller() == old(self).sys().spec_controller(),
    {
        self.system.command_list.add_command_to_current_frame(
            MVCMessage::ModelUpdateView(notification),
        );
    }

    /// Appends the notification to the bottom frame.
    pub fn update_view_later(&mut self, notification: MN)
        ensures
            final(self).sys().spec_queue().pending() == old(self).sys().spec_queue().pending().push(
                MVCMessage::ModelUpdateView(notification),
            ),
            old(self).sys().spec_queue().stashed().len() == 0 ==> {
                &&& final(self).sys().spec_queue().active() == old(
                    self,
                ).sys().spec_queue().active().push(MVCMessage::ModelUpdateView(notification))
                &&& final(self).sys().spec_queue().stashed() == old(
                    self,
                ).sys().spec_queue().stashed()
            },
            old(self).sys().spec_queue().stashed().len() > 0 ==> {
                &&& final(self).sys().spec_queue().active() == old(self).sys().spec_queue().active()
                &&& final(self).sys().spec_queue().stashed() == old(
                    self,
                ).sys().spec_queue().stashed().update(
                    0,
                    old(self).sys().spec_queue().stashed()[0].push(MVCMessage::ModelUpdateView(notification)),
                )
            },
            final(self).sys().spec_model() == old(self).sys().spec_model(),
            final(self).sys().spec_view() == old(self).sys().spec_view(),
            final(self).sys().spec_controller() == old(self).sys().spec_controller(),
    {
        self.system.command_list.add_command_to_bottom_frame(
            MVCMessage::ModelUpdateView(notification),
        );
    }
}

/// The scoped capability a view handler receives: mutable access to the
/// view, read access to the model, the scheduling interface for view
/// commands, and the view's own output hooks.
pub struct ViewToken<'a, M, V, C, MC, MN, VC, CN, CC> {
    system: &'a mut MVCSystem<M, V, C, MC, MN, VC, CN, CC>,
}

impl<'a, M, V, C, MC, MN, VC, CN, CC> ViewToken<'a, M, V, C, MC, MN, VC, CN, CC> where
    M: Model<V, C, VC, CN, CC, Command = MC, Notification = MN>,
    V: View<M, C, MC, MN, CN, CC, Command = VC>,
    C: Controller<M, V, MC, MN, VC, Command = CC, Notification = CN>,
 {
    /// The system this token gives scoped access to, in its present state.
    pub closed spec fn sys(self) -> MVCSystem<M, V, C, MC, MN, VC, CN, CC> {
        *self.system
    }

    /// Read access to the view.
    pub fn view(&self) -> (r: &V)
        ensures
            *r == self.sys().spec_view(),
    {
        &self.system.view
    }

    /// Mutable access to the view: the one role a view handler may mutate
    /// directly.
    pub fn view_mut(&mut self) -> (r: &mut V)
        ensures
            *r == old(self).sys().spec_view(),
            final(self).sys().spec_view() == *final(r),
            final(self).sys().spec_model() == old(self).sys().spec_model(),
            final(self).sys().spec_controller() == old(self).sys().spec_controller(),
            final(self).sys().spec_queue() == old(self).sys().spec_queue(),
    {
        &mut self.system.view
    }

    /// Read access to the model.
    pub fn model(&self) -> (r: &M)
        ensures
            *r == self.sys().spec_model(),
    {
        &self.system.model
    }

    /// Dispatches `command` to the view's handler synchronously, in a fresh
    /// frame, before returning to the caller.
    pub fn exec_command_now(&mut self, command: VC) {
        self.system.exec_immediate_command_in_new_frame(MVCMessage::ViewCommand(command));
    }

    /// Appends `command` to the active frame.
    pub fn exec_command_next(&mut self, command: VC)
        ensures
            final(self).sys().spec_queue().active() == old(self).sys().spec_queue().active().push(
                MVCMessage::ViewCommand(command),
            ),
            final(self).sys().spec_queue().stashed() == old(self).sys().spec_queue().stashed(),
            final(self).sys().spec_model() == old(self).sys().spec_model(),
            final(self).sys().spec_view() == old(self).sys().spec_view(),
            final(self).sys().spec_controller() == old(self).sys().spec_controller(),
    {
        self.system.command_list.add_command_to_current_frame(MVCMessage::ViewCommand(command));
    }

    /// Appends `command` to the bottom frame.
    pub fn exec_command_later(&mut self, command: VC)
        ensures
            final(self).sys().spec_queue().pending() == old(self).sys().spec_queue().pending().push(
                MVCMessage::ViewCommand(command),
            ),
            old(self).sys().spec_queue().stashed().len() == 0 ==> {
                &&& final(self).sys().spec_queue().active() == old(
                    self,
                ).sys().spec_queue().active().push(MVCMessage::ViewCommand(command))
                &&& final(self).sys().spec_queue().stashed() == old(
                    self,
                ).sys().spec_queue().stashed()
            },
            old(self).sys().spec_queue().stashed().len() > 0 ==> {
                &&& final(self).sys().spec_queue().active() == old(self).sys().spec_queue().active()
                &&& final(self).sys().spec_queue().stashed() == old(
                    self,
                ).sys().spec_queue().stashed().update(
                    0,
                    old(self).sys().spec_queue().stashed()[0].push(MVCMessage::ViewCommand(command)),
                )
            },
            final(self).sys().spec_model() == old(self).sys().spec_model(),
            final(self).sys().spec_view() == old(self).sys().spec_view(),
            final(self).sys().spec_controller() == old(self).sys().spec_controller(),
    {
        self.system.command_list.add_command_to_bottom_frame(MVCMessage::ViewCommand(command));
    }

    /// Forwards `target` to the view's output-redirection hook.  Unlike the
    /// system-level entry point, this does not drain the queue; the handler
    /// invocation it happens in is already part of a drain.  The hook
    /// receives only the view: the queue, the model and the controller are
    /// untouched, and nothing is dispatched by this call.
    pub fn redirect_output_target(&mut self, target: Option<V::OutputTarget>)
        ensures
            final(self).sys().spec_queue() == old(self).sys().spec_queue(),
            final(self).sys().spec_model() == old(self).sys().spec_model(),
            final(self).sys().spec_controller() == old(self).sys().spec_controller(),
    {
        self.system.view.redirect_output_target(target);
    }

    /// Read-only pass-through to the view's output-sync hook with a default
    /// parameter.
    pub fn sync_output(&self) where V::OutputParameter: Default {
        let mut param = <V::OutputParameter as Default>::default();
        self.system.view.sync_output_with_parameter(&self.system.model, &mut param);
    }

    /// Read-only pass-through to the view's output-sync hook.
    pub fn sync_output_with_parameter(&self, param: &mut V::OutputParameter) {
        self.system.view.sync_output_with_parameter(&self.system.model, param);
    }
}

/// The scoped capability a controller handler receives: mutable access to
/// the controller and the scheduling interface for controller commands and
/// controller-to-model notifications.
pub struct ControllerToken<'a, M, V, C, MC, MN, VC, CN, CC> {
    system: &'a mut MVCSystem<M, V, C, MC, MN, VC, CN, CC>,
}

impl<'a, M, V, C, MC, MN, VC, CN, CC> ControllerToken<'a, M, V, C, MC, MN, VC, CN, CC> where
    M: Model<V, C, VC, CN, CC, Command = MC, Notification = MN>,
    V: View<M, C, MC, MN, CN, CC, Command = VC>,
    C: Controller<M, V, MC, MN, VC, Command = CC, Notification = CN>,
 {
    /// The system this token gives scoped access to, in its present state.
    pub closed spec fn sys(self) -> MVCSystem<M, V, C, MC, MN, VC, CN, CC> {
        *self.system
    }

    /// Read access to the controller.
    pub fn controller(&self) -> (r: &C)
        ensures
            *r == self.sys().spec_controller(),
    {
        &self.system.controller
    }

    /// Mutable access to the controller: the one role a controller handler
    /// may mutate directly.
    pub fn controller_mut(&mut self) -> (r: &mut C)
        ensures
            *r == old(self).sys().spec_controller(),
            final(self).sys().spec_controller() == *final(r),
            final(self).sys().spec_model() == old(self).sys().spec_model(),
            final(self).sys().spec_view() == old(self).sys().spec_view(),
            final(self).sys().spec_queue() == old(self).sys().spec_queue(),
    {
        &mut self.system.controller
    }

    /// Dispatches `command` to the controller's handler synchronously, in a
    /// fresh frame, before returning to the caller.
    pub fn exec_command_now(&mut self, command: CC) {
        self.system.exec_immediate_command_in_new_frame(MVCMessage::ControllerCommand(command));
    }

    /// Appends `command` to the active frame.
    pub fn exec_command_next(&mut self, command: CC)
        ensures
            final(self).sys().spec_queue().active() == old(self).sys().spec_queue().active().push(
                MVCMessage::ControllerCommand(command),
            ),
            final(self).sys().spec_queue().stashed() == old(self).sys().spec_queue().stashed(),
            final(self).sys().spec_model() == old(self).sys().spec_model(),
            final(self).sys().spec_view() == old(self).sys().spec_view(),
            final(self).sys().spec_controller() == old(self).sys().spec_controller(),
    {
        self.system.command_list.add_command_to_current_frame(
            MVCMessage::ControllerCommand(command),
        );
    }

    /// Appends `command` to the bottom frame.
    pub fn exec_command_later(&mut self, command: CC)
        ensures
            final(self).sys().spec_queue().pending() == old(self).sys().spec_queue().pending().push(
                MVCMessage::ControllerCommand(command),
            ),
            old(self).sys().spec_queue().stashed().len() == 0 ==> {
                &&& final(self).sys().spec_queue().active() == old(
                    self,
                ).sys().spec_queue().active().push(MVCMessage::ControllerCommand(command))
                &&& final(self).sys().spec_queue().stashed() == old(
                    self,
                ).sys().spec_queue().stashed()
            },
            old(self).sys().spec_queue().stashed().len() > 0 ==> {
                &&& final(self).sys().spec_queue().active() == old(self).sys().spec_queue().active()
                &&& final(self).sys().spec_queue().stashed() == old(
                    self,
                ).sys().spec_queue().stashed().update(
                    0,
                    old(self).sys().spec_queue().stashed()[0].push(MVCMessage::ControllerCommand(command)),
                )
            },
            final(self).sys().spec_model() == old(self).sys().spec_model(),
            final(self).sys().spec_view() == old(self).sys().spec_view(),
            final(self).sys().spec_controller() == old(self).sys().spec_controller(),
    {
        self.system.command_list.add_command_to_bottom_frame(
            MVCMessage::ControllerCommand(command),
        );
    }

    /// Translates `notification` through the model's hook and dispatches the
    /// resulting command, if any, synchronously before returning.
    pub fn manipulate_model_now(&mut self, notification: CN) {
        self.system.exec_immediate_command_in_new_frame(
            MVCMessage::ControllerManipulatesModel(notification),
        );
    }

    /// Appends the notification to the active frame.
    pub fn manipulate_model_next(&mut self, notification: CN)
        ensures
            final(self).sys().spec_queue().active() == old(self).sys().spec_queue().active().push(
                MVCMessage::ControllerManipulatesModel(notification),
            ),
            final(self).sys().spec_queue().stashed() == old(self).sys().spec_queue().stashed(),
            final(self).sys().spec_model() == old(self).sys().spec_model(),
            final(self).sys().spec_view() == old(self).sys().spec_view(),
            final(self).sys().spec_controller() == old(self).sys().spec_controller(),
    {
        self.system.command_list.add_command_to_current_frame(
            MVCMessage::ControllerManipulatesModel(notification),
        );
    }

    /// Appends the notification to the bottom frame.
    pub fn manipulate_model_later(&mut self, notification: CN)
        ensures
            final(self).sys().spec_queue().pending() == old(self).sys().spec_queue().pending().push(
                MVCMessage::ControllerManipulatesModel(notification),
            ),
            old(self).sys().spec_queue().stashed().len() == 0 ==> {
                &&& final(self).sys().spec_queue().active() == old(
                    self,
                ).sys().spec_queue().active().push(MVCMessage::ControllerManipulatesModel(notification))
                &&& final(self).sys().spec_queue().stashed() == old(
                    self,
                ).sys().spec_queue().stashed()
            },
            old(self).sys().spec_queue().stashed().len() > 0 ==> {
                &&& final(self).sys().spec_queue().active() == old(self).sys().spec_queue().active()
                &&& final(self).sys().spec_queue().stashed() == old(
                    self,
                ).sys().spec_queue().stashed().update(
                    0,
                    old(self).sys().spec_queue().stashed()[0].push(MVCMessage::ControllerManipulatesModel(notification)),
                )
            },
            final(self).sys().spec_model() == old(self).sys().spec_model(),
            final(self).sys().spec_view() == old(self).sys().spec_view(),
            final(self).sys().spec_controller() == old(self).sys().spec_controller(),
    {
        self.system.command_list.add_command_to_bottom_frame(
            MVCMessage::ControllerManipulatesModel(notification),
        );
    }
}

/// The data-holding role.  `V` and `C` are the view and controller types;
/// `VC`, `CN` and `CC` are the view's command type and the controller's
/// notification and command types.  Implementers declare the model's own
/// command and notification types and may override the command handler and
/// the translation hook; the defaults ignore the command and absorb every
/// notification.
pub trait Model<V, C, VC, CN, CC>: Sized + 'static {
    /// The model's own command type.
    type Command;

    /// What the model emits towards the view.
    type Notification;

    /// Handles one model command.  The default ignores it.
    #[allow(unused_variables)]
    fn process_command(
        token: ModelToken<Self, V, C, Self::Command, Self::Notification, VC, CN, CC>,
        command: Self::Command,
    ) {
    }

    /// Maps a controller notification to an optional model command; `None`
    /// absorbs the notification.  The default absorbs every notification.
    #[allow(unused_variables)]
    fn translate_controller_notification(controller_notification: CN) -> Option<Self::Command> {
        None
    }
}

/// The presentation role.  `M` and `C` are the model and controller types;
/// `MC`, `MN`, `CN` and `CC` are the model's command and notification types
/// and the controller's notification and command types.  Implementers
/// declare the view's own command, output-target and output-parameter types
/// and may override the command handler, the translation hook and the two
/// output hooks; the defaults ignore commands, absorb notifications and
/// leave the output parameter untouched.
pub trait View<M, C, MC, MN, CN, CC>: Sized + 'static {
    /// The view's own command type.
    type Command;

    /// Where output may be redirected to.
    type OutputTarget;

    /// What an output sync fills in.
    type OutputParameter;

    /// Handles one view command.  The default ignores it.
    #[allow(unused_variables)]
    fn process_command(
        token: ViewToken<M, Self, C, MC, MN, Self::Command, CN, CC>,
        command: Self::Command,
    ) {
    }

    /// Maps a model notification to an optional view command; `None`
    /// absorbs the notification.  The default absorbs every notification.
    #[allow(unused_variables)]
    fn translate_model_notification(model_notification: MN) -> Option<Self::Command> {
        None
    }

    /// Points the view's output at `target`, or at nothing.  The default
    /// does nothing.
    #[allow(unused_variables)]
    fn redirect_output_target(&mut self, target: Option<Self::OutputTarget>) {
    }

    /// Fills `parameter` from the view's and the model's state.  The default
    /// leaves it untouched.
    #[allow(unused_variables)]
    fn sync_output_with_parameter(&self, model: &M, parameter: &mut Self::OutputParameter) {
    }
}

/// The input-handling role.  `M` and `V` are the model and view types; `MC`,
/// `MN` and `VC` are the model's command and notification types and the
/// view's command type.  Implementers declare the controller's own command
/// and notification types and may override the command handler; the default
/// ignores every command.
pub trait Controller<M, V, MC, MN, VC>: Sized + 'static {
    /// The controller's own command type.
    type Command;

    /// What the controller emits towards the model.
    type Notification;

    /// Handles one controller command.  The default ignores it.
    #[allow(unused_variables)]
    fn process_command(
        token: ControllerToken<M, V, Self, MC, MN, VC, Self::Notification, Self::Command>,
        command: Self::Command,
    ) {
    }
}


} // verus!
