use mvc_core::mvc::{
    Controller, ControllerToken, MVCSystem, Model, ModelToken, View, ViewToken,
};

// Controller commands drive the scenarios:
//   1: immediately notifies the model (translated to model command 110)
//   2: dispatches controller command 3 synchronously
//   3: schedules 4 for later (bottom frame), then 5 for next (active frame)
//   6: notifies the model with a notification its hook absorbs
//   7: immediately notifies the model (translated to model command 200)
//   8: immediately notifies the model (translated to model command 203)
// Model commands:
//   200: schedules 201 next, 202 later, and notifies the view (translated
//        to view command 330)
//   203: immediately notifies the view (translated to view command 340)
// View commands:
//   340: schedules view command 341 next
// Everything processed is recorded in the owning role, in order.

struct TestModel {
    processed: Vec<u64>,
}

struct TestView {
    processed: Vec<u64>,
    targets: Vec<Option<String>>,
}

struct TestController {
    processed: Vec<u64>,
}

type Sys = MVCSystem<TestModel, TestView, TestController, u64, u64, u64, u64, u64>;

impl Model<TestView, TestController, u64, u64, u64> for TestModel {
    type Command = u64;
    type Notification = u64;

    fn process_command(
        mut token: ModelToken<TestModel, TestView, TestController, u64, u64, u64, u64, u64>,
        command: u64,
    ) {
        token.model_mut().processed.push(command);
        if command == 200 {
            token.exec_command_next(201);
            token.exec_command_later(202);
            token.update_view_next(30);
        }
        if command == 203 {
            token.update_view_now(31);
        }
    }

    fn translate_controller_notification(controller_notification: u64) -> Option<u64> {
        match controller_notification {
            10 => Some(110),
            11 => Some(200),
            12 => Some(203),
            _ => None,
        }
    }
}

impl View<TestModel, TestController, u64, u64, u64, u64> for TestView {
    type Command = u64;
    type OutputTarget = String;
    type OutputParameter = Vec<u64>;

    fn process_command(
        mut token: ViewToken<TestModel, TestView, TestController, u64, u64, u64, u64, u64>,
        command: u64,
    ) {
        token.view_mut().processed.push(command);
        if command == 340 {
            token.exec_command_next(341);
        }
    }

    fn translate_model_notification(model_notification: u64) -> Option<u64> {
        match model_notification {
            30 => Some(330),
            31 => Some(340),
            _ => None,
        }
    }

    fn redirect_output_target(&mut self, target: Option<String>) {
        self.targets.push(target);
    }

    fn sync_output_with_parameter(&self, model: &TestModel, parameter: &mut Vec<u64>) {
        parameter.clear();
        parameter.extend(model.processed.iter().copied());
    }
}

impl Controller<TestModel, TestView, u64, u64, u64> for TestController {
    type Command = u64;
    type Notification = u64;

    fn process_command(
        mut token: ControllerToken<TestModel, TestView, TestController, u64, u64, u64, u64, u64>,
        command: u64,
    ) {
        token.controller_mut().processed.push(command);
        match command {
            1 => token.manipulate_model_now(10),
            2 => token.exec_command_now(3),
            3 => {
                token.exec_command_later(4);
                token.exec_command_next(5);
            },
            6 => token.manipulate_model_now(20),
            7 => token.manipulate_model_now(11),
            8 => token.manipulate_model_now(12),
            _ => {},
        }
    }
}

fn fresh_system() -> Sys {
    MVCSystem::new(
        TestModel { processed: Vec::new() },
        TestView { processed: Vec::new(), targets: Vec::new() },
        TestController { processed: Vec::new() },
    )
}

#[test]
fn construction_exposes_the_roles() {
    let sys = fresh_system();
    assert!(sys.model().processed.is_empty());
    assert!(sys.view().processed.is_empty());
    assert!(sys.controller().processed.is_empty());
}

#[test]
fn immediate_notification_reaches_the_model_synchronously() {
    let mut sys = fresh_system();
    assert!(sys.process_input(1u64));
    // The translated model command was processed before process_input
    // returned, not deferred.
    assert_eq!(sys.model().processed, vec![110]);
    assert_eq!(sys.controller().processed, vec![1]);
}

#[test]
fn next_runs_before_later_after_nested_return() {
    let mut sys = fresh_system();
    assert!(sys.process_input(2u64));
    // 3 runs synchronously inside 2; on unwinding, the next-scheduled 5
    // (active frame) is observed before the later-scheduled 4 (bottom
    // frame).
    assert_eq!(sys.controller().processed, vec![2, 3, 5, 4]);
}

#[test]
fn absorbed_notification_invokes_no_handler() {
    let mut sys = fresh_system();
    assert!(sys.process_input(6u64));
    assert_eq!(sys.controller().processed, vec![6]);
    assert!(sys.model().processed.is_empty());
    assert!(sys.view().processed.is_empty());
}

#[test]
fn model_scheduling_and_view_translation_order() {
    let mut sys = fresh_system();
    assert!(sys.process_input(7u64));
    assert_eq!(sys.controller().processed, vec![7]);
    assert_eq!(sys.model().processed, vec![200, 201, 202]);
    assert_eq!(sys.view().processed, vec![330]);
}

#[test]
fn view_handlers_can_schedule_view_commands() {
    let mut sys = fresh_system();
    assert!(sys.process_input(8u64));
    assert_eq!(sys.model().processed, vec![203]);
    assert_eq!(sys.view().processed, vec![340, 341]);
}

#[test]
fn inputs_processed_in_arrival_order() {
    let mut sys = fresh_system();
    assert!(sys.process_input(100u64));
    assert!(sys.process_input(101u64));
    assert_eq!(sys.controller().processed, vec![100, 101]);
}

#[test]
fn redirect_output_target_reaches_the_view() {
    let mut sys = fresh_system();
    assert!(sys.redirect_output_target(Some(String::from("primary"))));
    assert!(sys.redirect_output_target(None));
    assert_eq!(
        sys.view().targets,
        vec![Some(String::from("primary")), None],
    );
    // The hook receives only the view: the other roles stay untouched.
    assert!(sys.model().processed.is_empty());
    assert!(sys.controller().processed.is_empty());
}

#[test]
fn sync_output_with_parameter_reads_without_mutating() {
    let mut sys = fresh_system();
    assert!(sys.process_input(1u64));
    let before_model = sys.model().processed.clone();
    let before_controller = sys.controller().processed.clone();
    let mut param: Vec<u64> = Vec::new();
    sys.sync_output_with_parameter(&mut param);
    assert_eq!(param, vec![110]);
    // Nothing changed and nothing was drained or dispatched.
    assert_eq!(sys.model().processed, before_model);
    assert_eq!(sys.controller().processed, before_controller);
    assert!(sys.view().processed.is_empty());
}

#[test]
fn sync_output_uses_a_default_parameter_and_mutates_nothing() {
    let mut sys = fresh_system();
    assert!(sys.process_input(1u64));
    let before_model = sys.model().processed.clone();
    sys.sync_output();
    assert_eq!(sys.model().processed, before_model);
    assert!(sys.view().processed.is_empty());
    assert_eq!(sys.controller().processed, vec![1]);
}

// Roles that rely entirely on the traits' default hook implementations.

struct NullModel;

struct NullView;

struct NullController;

type NullSys = MVCSystem<NullModel, NullView, NullController, u64, u64, u64, u64, u64>;

impl Model<NullView, NullController, u64, u64, u64> for NullModel {
    type Command = u64;
    type Notification = u64;
}

impl View<NullModel, NullController, u64, u64, u64, u64> for NullView {
    type Command = u64;
    type OutputTarget = String;
    type OutputParameter = Vec<u64>;
}

impl Controller<NullModel, NullView, u64, u64, u64> for NullController {
    type Command = u64;
    type Notification = u64;
}

#[test]
fn default_handlers_ignore_everything() {
    let mut sys: NullSys = MVCSystem::new(NullModel, NullView, NullController);
    assert!(sys.process_input(42u64));
    assert!(sys.redirect_output_target(Some(String::from("nowhere"))));
    let mut param: Vec<u64> = vec![9];
    sys.sync_output_with_parameter(&mut param);
    assert_eq!(param, vec![9]);
    sys.sync_output();
}
