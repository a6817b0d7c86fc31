use pictionary::avatar::avatar_initial;
use pictionary::chat_history::{AudioChunk, ChatHistory, Msg as ChatMsg};
use pictionary::draw_widget::{stroke_step, DrawWidget, Msg as DrawMsg, PenEvent, StrokeStep, ToolBox, ToolBoxOpen};
use pictionary::notification::{
    notification_class, Notification, NotificationAgent, NotificationAgentInput, NotificationAgentOutput,
    NotificationType, NotificationWidget,
};
use pictionary::peer_handler::{ends_peer, ice_server_urls, relay_message, IceConnectionState, RelayKind};

fn note(s: &str, t: NotificationType) -> Notification {
    Notification { content: s.to_string(), notification_type: t }
}

fn chunk(b: u8) -> AudioChunk {
    AudioChunk { data: vec![b], type_: "audio/webm".to_string() }
}

#[test]
fn avatar_letters() {
    assert_eq!(avatar_initial("Zoe"), 'Z');
    assert_eq!(avatar_initial("élan"), 'é');
    assert_eq!(avatar_initial(""), '.');
}

#[test]
fn the_audio_queue_keeps_six() {
    let mut c = ChatHistory::new();
    assert!(c.aud_ended().is_none());
    for b in 0..8u8 {
        c.received_audio(chunk(b), true, false);
        assert!(c.audiocache.len() <= 6);
    }
    assert_eq!(c.audiocache.len(), 6);
    assert_eq!(c.aud_ended().unwrap().data, vec![2]);
    assert_eq!(c.audiocache.len(), 5);
    assert_eq!(c.aud_ended().unwrap().data, vec![3]);
}

#[test]
fn a_chunk_starts_the_player_when_idle() {
    let mut c = ChatHistory::new();
    assert!(c.received_audio(chunk(1), false, false));
    assert!(c.received_audio(chunk(2), true, true));
    assert!(!c.received_audio(chunk(3), true, false));
    assert_eq!(c.audiocache.len(), 3);
}

#[test]
fn the_brush() {
    let mut b: DrawWidget<u32> = DrawWidget::create(vec![]);
    assert_eq!(b.current_color, "black");
    assert_eq!(b.current_width, 2);
    assert_eq!(b.toolboxopen, ToolBoxOpen::Closed);
    assert!(!b.pressed && !b.is_eraser);
    b.set_toolbox(ToolBoxOpen::Color);
    assert_eq!(b.toolboxopen, ToolBoxOpen::Color);
    b.set_color("red".to_string());
    assert_eq!(b.current_color, "red");
    assert_eq!(b.toolboxopen, ToolBoxOpen::Closed);
    b.set_toolbox(ToolBoxOpen::Brush);
    b.set_size(9);
    assert_eq!(b.current_width, 9);
    assert_eq!(b.toolboxopen, ToolBoxOpen::Closed);
    b.toggle_eraser();
    assert!(b.is_eraser);
    b.toggle_eraser();
    assert!(!b.is_eraser);
}

#[test]
fn draw_buffers() {
    let mut d: DrawWidget<u32> = DrawWidget::create(vec![1, 2]);
    assert_eq!(d.next_point_id(), 2);
    d.set_point(&3);
    assert_eq!(d.points, vec![1, 2, 3]);
    assert_eq!(d.todraw, vec![3]);
    assert_eq!(d.tosend, vec![3]);
    d.set_data(vec![4, 5]);
    assert_eq!(d.points, vec![1, 2, 3, 4, 5]);
    assert_eq!(d.todraw, vec![3, 4, 5]);
    assert_eq!(d.tosend, vec![3]);
    let t = d.send_tick();
    assert_eq!(t.draw, vec![3, 4, 5]);
    assert_eq!(t.send, Some(vec![3]));
    assert!(!t.render);
    let t = d.send_tick();
    assert!(t.draw.is_empty());
    assert!(t.send.is_none());
    assert!(t.render);
    d.reset();
    assert_eq!(d.take_todraw(), vec![1, 2, 3, 4, 5]);
    d.clear_doc();
    assert!(d.points.is_empty() && d.todraw.is_empty());
    assert_eq!(d.next_point_id(), 0);
}

fn flag(d: &mut DrawWidget<u32>, ev: PenEvent, ctx: bool) -> Option<bool> {
    d.pen(ev, ctx).map(|s| s.draw)
}

#[test]
fn the_pen() {
    let mut p: DrawWidget<u32> = DrawWidget::create(vec![]);
    assert_eq!(flag(&mut p, PenEvent::MouseMove, true), None);
    assert_eq!(flag(&mut p, PenEvent::MouseDown, false), None);
    assert!(!p.pressed);
    assert_eq!(flag(&mut p, PenEvent::MouseDown, true), Some(false));
    assert!(p.pressed);
    assert_eq!(flag(&mut p, PenEvent::MouseMove, true), Some(true));
    assert_eq!(flag(&mut p, PenEvent::MouseUp, true), Some(true));
    assert!(!p.pressed);
    assert_eq!(flag(&mut p, PenEvent::TouchStart, true), Some(false));
    assert_eq!(flag(&mut p, PenEvent::TouchMove, true), Some(true));
    assert_eq!(flag(&mut p, PenEvent::TouchEnd, true), Some(false));
    assert!(!p.pressed);
    flag(&mut p, PenEvent::MouseDown, true);
    assert_eq!(flag(&mut p, PenEvent::MouseExit, true), None);
    assert!(!p.pressed);
}

#[test]
fn a_recorded_point_carries_the_brush() {
    let mut d: DrawWidget<u32> = DrawWidget::create(vec![10, 11, 12]);
    d.set_color("blue".to_string());
    d.set_size(7);
    d.toggle_eraser();
    let s = d.pen(PenEvent::MouseDown, true).unwrap();
    assert_eq!(s.id, 3);
    assert_eq!(s.line_width, 7);
    assert_eq!(s.color, "blue");
    assert!(s.eraser);
    assert!(!s.draw);
    assert_eq!(d.points.len(), 3);
}

#[test]
fn nothing_is_recorded_without_a_context() {
    let mut d: DrawWidget<u32> = DrawWidget::create(vec![]);
    for ev in [PenEvent::MouseDown, PenEvent::MouseUp, PenEvent::MouseMove, PenEvent::TouchStart, PenEvent::TouchEnd, PenEvent::TouchMove, PenEvent::MouseExit] {
        assert!(d.pen(ev, false).is_none());
        assert!(!d.pressed);
    }
}

#[test]
fn stroke_steps() {
    assert_eq!(stroke_step(0, true, false), StrokeStep::MoveTo { clear: true });
    assert_eq!(stroke_step(4, false, true), StrokeStep::MoveTo { clear: false });
    assert_eq!(stroke_step(4, true, true), StrokeStep::LineTo { white: true });
    assert_eq!(stroke_step(4, true, false), StrokeStep::LineTo { white: false });
}

#[test]
fn notifications_list() {
    let mut l = NotificationWidget::new();
    l.add_notif(note("a", NotificationType::Info));
    l.add_notif(note("b", NotificationType::Error));
    l.add_notif(note("a", NotificationType::Info));
    assert_eq!(l.remove_notif(&note("a", NotificationType::Info)), Some(0));
    assert_eq!(l.notifs.len(), 2);
    assert_eq!(l.notifs[0].content, "b");
    assert_eq!(l.remove_notif(&note("b", NotificationType::Info)), None);
    assert_eq!(l.notifs.len(), 2);
}

#[test]
fn add_then_dismiss_restores_the_list() {
    let mut l = NotificationWidget::new();
    l.add_notif(note("x", NotificationType::Success));
    l.add_notif(note("y", NotificationType::Warning));
    assert_eq!(l.remove_notif(&note("y", NotificationType::Warning)), Some(1));
    assert_eq!(l.notifs.len(), 1);
    assert_eq!(l.notifs[0].content, "x");
}

#[test]
fn notification_agent_passes_on() {
    let mut a = NotificationAgent::create();
    a.connected(1);
    a.connected(2);
    a.disconnected(1);
    assert_eq!(a.subscribers, vec![2]);
    let NotificationAgentOutput::Notify(n) = a.handle_input(NotificationAgentInput::Notify(note("hi", NotificationType::Info)));
    assert_eq!(n.content, "hi");
    assert!(note("q", NotificationType::Info).same_as(&note("q", NotificationType::Info)));
    assert!(!note("q", NotificationType::Info).same_as(&note("q", NotificationType::Error)));
    assert_eq!(note("q", NotificationType::Error).duplicate().content, "q");
}

#[test]
fn notification_classes() {
    assert_eq!(notification_class(NotificationType::Info), "notification is-info");
    assert_eq!(notification_class(NotificationType::Warning), "notification is-warning");
    assert_eq!(notification_class(NotificationType::Error), "notification is-danger");
    assert_eq!(notification_class(NotificationType::Success), "notification is-primary");
}

#[test]
fn stun_servers() {
    let v = ice_server_urls();
    assert_eq!(v.len(), 5);
    assert_eq!(v[0], "stun:stun.l.google.com:19302");
    assert_eq!(v[4], "stun:stun4.l.google.com:19302");
}

#[test]
fn relay_messages() {
    let t = relay_message(RelayKind::Offer, 17, "sdp".to_string());
    assert_eq!(t.command, "O");
    assert_eq!(t.id, Some("17".to_string()));
    assert_eq!(t.data, Some("sdp".to_string()));
    assert_eq!(relay_message(RelayKind::Answer, 0, String::new()).command, "A");
    assert_eq!(relay_message(RelayKind::Candidate, 0, String::new()).command, "C");
}

#[test]
fn lost_connections_end_the_peer() {
    assert!(ends_peer(IceConnectionState::Disconnected));
    assert!(ends_peer(IceConnectionState::Failed));
    assert!(ends_peer(IceConnectionState::Closed));
    assert!(!ends_peer(IceConnectionState::Connected));
    assert!(!ends_peer(IceConnectionState::Checking));
}

#[test]
fn chat_lines_go_on_top() {
    let mut c = ChatHistory::new();
    c.add_chat("ann".to_string(), "hi".to_string());
    c.add_chat("bob".to_string(), "yo".to_string());
    assert_eq!(c.history, vec![("bob".to_string(), "yo".to_string()), ("ann".to_string(), "hi".to_string())]);
    assert!(c.audiocache.is_empty());
}

#[test]
fn board_update_render_flags() {
    let mut d: DrawWidget<u32> = DrawWidget::create(vec![1]);
    assert!(d.update(DrawMsg::SetToolBox(ToolBoxOpen::Brush)));
    assert_eq!(d.toolboxopen, ToolBoxOpen::Brush);
    assert!(d.update(DrawMsg::SetColor("green".to_string())));
    assert_eq!(d.current_color, "green");
    assert!(d.update(DrawMsg::SetSize(15)));
    assert_eq!(d.current_width, 15);
    assert!(!d.update(DrawMsg::SetData(vec![2, 3])));
    assert_eq!(d.points, vec![1, 2, 3]);
    assert_eq!(d.todraw, vec![2, 3]);
    assert!(!d.update(DrawMsg::ClearDoc));
    assert!(d.points.is_empty() && d.todraw.is_empty());
}

#[test]
fn toggling_the_eraser_twice_restores_it() {
    let mut d: DrawWidget<u32> = DrawWidget::create(vec![4]);
    assert!(d.update(DrawMsg::ToggleEraser));
    assert!(d.is_eraser);
    assert!(d.update(DrawMsg::ToggleEraser));
    assert!(!d.is_eraser);
    assert_eq!(d.current_color, "black");
    assert_eq!(d.current_width, 2);
    assert_eq!(d.points, vec![4]);
}

#[test]
fn tool_box_choices() {
    let mut d: DrawWidget<u32> = DrawWidget::create(vec![]);
    assert!(matches!(d.toolbox(), ToolBox::Hidden));
    d.set_toolbox(ToolBoxOpen::Brush);
    assert!(matches!(d.toolbox(), ToolBox::Sizes(v) if v == vec![2, 5, 10, 15, 20]));
    d.set_toolbox(ToolBoxOpen::Color);
    assert!(matches!(d.toolbox(), ToolBox::Colors(v) if v == vec!["black", "red", "green", "blue", "yellow"]));
    d.set_toolbox(ToolBoxOpen::Eraser);
    assert!(matches!(d.toolbox(), ToolBox::Hidden));
}

#[test]
fn chat_update_effects() {
    let mut c = ChatHistory::new();
    let e = c.update(ChatMsg::AddChat("ann".to_string(), "hi".to_string()));
    assert!(e.render && !e.start_player && e.play.is_none());
    for b in 0..7u8 {
        let e = c.update(ChatMsg::ReceivedAudio("p".to_string(), chunk(b), b > 0, false));
        assert!(!e.render);
        assert_eq!(e.start_player, b == 0);
        assert!(c.audiocache.len() <= 6);
        assert_eq!(c.audiocache.last().unwrap().data, vec![b]);
    }
    let e = c.update(ChatMsg::AudEnded);
    assert_eq!(e.play.unwrap().data, vec![1]);
    assert!(!e.render);
    assert_eq!(c.history.len(), 1);
}
