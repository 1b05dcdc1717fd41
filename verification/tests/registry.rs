use interprocess::local_socket::traits::Stream as StreamExt;
use interprocess::local_socket::{GenericFilePath, Stream, ToFsName};
use mpv_rc::addui::{AddUi, AddUiResult};
use mpv_rc::registry::{App, WindowButtons};
use mpv_rc::session::Session;

#[test]
fn successful_open_registers_a_session() {
    let mut app = App::default();
    app.register(Ok(Session::new("pipe-a".into())));
    assert_eq!(app.clients.len(), 1);
    assert_eq!(app.clients[0].title(), "pipe-a");
    assert_eq!(app.bottom_status, "");
}

#[test]
fn failed_open_registers_nothing_and_surfaces_the_error() {
    let mut app = App::default();
    app.register(Err("no such pipe".into()));
    assert_eq!(app.clients.len(), 0);
    assert_eq!(app.bottom_status, "no such pipe");
}

#[test]
fn connecting_to_missing_pipe_fails_without_a_session() {
    let mut app = App::default();
    let name = "/tmp/mpv_rc_no_such_pipe_for_sure"
        .to_fs_name::<GenericFilePath>()
        .unwrap();
    match Stream::connect(name) {
        Ok(_) => panic!("connect to a missing pipe must not succeed"),
        Err(e) => app.register(Err(format!("{:?}", e))),
    }
    assert_eq!(app.clients.len(), 0);
    assert!(!app.bottom_status.is_empty());
}

#[test]
fn default_app_is_empty() {
    let app = App::default();
    assert_eq!(app.commands.len(), 0);
    assert_eq!(app.clients.len(), 0);
    assert_eq!(app.clients_hovered.len(), 0);
    assert_eq!(app.bottom_status, "");
    assert_eq!(app.update_count, 0);
}

#[test]
fn add_and_remove_commands() {
    let mut app = App::default();
    app.add_command();
    app.add_command();
    assert_eq!(app.commands.len(), 2);
    assert_eq!(app.commands[1].title(), "show-text from mpv-rc");
    app.remove_command(0);
    assert_eq!(app.commands.len(), 1);
}

#[test]
fn replace_commands_swaps_the_whole_list() {
    let mut app = App::default();
    app.add_command();
    let loaded = vec![mpv_rc::command::Command::from_record(
        "T".into(),
        vec!["stop".into()],
    )];
    app.replace_commands(loaded);
    assert_eq!(app.commands.len(), 1);
    assert_eq!(app.commands[0].title(), "T");
}

#[test]
fn tick_advances_the_frame_counter() {
    let mut app = App::default();
    app.tick();
    app.tick();
    assert_eq!(app.update_count, 2);
}

#[test]
fn note_status_fills_the_status_bar() {
    let mut app = App::default();
    app.note_status("can't load ...".into());
    assert_eq!(app.bottom_status, "can't load ...");
}

#[test]
fn window_buttons_remove_drops_the_window() {
    let b = WindowButtons::Remove(0);
    let mut current = vec![10, 20];
    let mut next = vec![99];
    b.modify_layouts(&mut current, &mut next);
    assert_eq!(current, vec![20]);
    assert_eq!(next, vec![99]);
}

#[test]
fn window_buttons_next_layout_moves_the_window() {
    let b = WindowButtons::NextLayout(1);
    let mut current = vec![1, 2, 3];
    let mut next = vec![9];
    b.modify_layouts(&mut current, &mut next);
    assert_eq!(current, vec![1, 3]);
    assert_eq!(next, vec![9, 2]);
}

#[test]
fn window_buttons_nop_changes_nothing() {
    let b = WindowButtons::new();
    let mut current = vec![1];
    let mut next: Vec<i32> = Vec::new();
    b.modify_layouts(&mut current, &mut next);
    assert_eq!(current, vec![1]);
    assert_eq!(next, Vec::<i32>::new());
}

#[test]
fn addui_starts_with_the_customary_path() {
    let a = AddUi::default();
    assert_eq!(a.path(), "mpv\\default");
}

#[test]
fn addui_confirm_asks_for_the_typed_path() {
    let mut a = AddUi::default();
    a.set_path("mpv\\second".into());
    match a.confirm() {
        AddUiResult::Add(p) => assert_eq!(p, "mpv\\second"),
        AddUiResult::Nop => panic!("confirm must ask for a connection"),
    }
}
