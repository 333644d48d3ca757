use embargo::bar::Bar;
use embargo::config::Anchor;
use embargo::input::{
    LogicalPosition, PointerButton, PointerEvent, PointerEventKind, PointerState, WindowEvent,
};
use embargo::pixel::RgbaPixel;
use embargo::protocol::{
    Action, BarError, Capability, Dispatch, Event, Globals, SeatCapability,
};
use embargo::surface::BarInstance;

fn all_globals() -> Globals {
    Globals { compositor: true, shared_memory: true, layer_shell: true }
}

fn small_bar() -> Bar {
    Bar::new(all_globals(), RgbaPixel::new(1, 2, 3, 4), Anchor::Bottom, "panel", 2, 1).unwrap()
}

fn present(surface: u32, slot: usize) -> Action {
    Action::Present { surface, slot, offset: 8 * slot as i32, width: 2, height: 1, stride: 8 }
}

fn press(surface: u32, button: u32) -> PointerEvent {
    PointerEvent {
        surface,
        position: LogicalPosition::from_pixels(10, 5),
        kind: PointerEventKind::Press { button },
    }
}

#[test]
fn new_bar_starts_empty() {
    let bar = Bar::new(all_globals(), RgbaPixel::default(), Anchor::Top, "embargo", 1920, 40)
        .unwrap();
    assert_eq!(bar.instances().len(), 0);
    assert_eq!(bar.size(), (1920, 40));
    assert!(!bar.exit());
    assert!(!bar.has_pointer());
    assert_eq!(bar.missed_draws(), 0);
    assert_eq!(bar.software_buffer().len(), 1920 * 40);
    assert!(bar.software_buffer().iter().all(|p| *p == RgbaPixel::default()));
    assert_eq!(bar.pool().slots(), 1);
    assert_eq!(bar.pool().frame_len(), 1920 * 40 * 4);
    assert_eq!(bar.config().position(), Anchor::Top);
    assert_eq!(bar.config().layer_name(), "embargo");
    assert_eq!(bar.config().width(), 1920);
    assert_eq!(bar.config().height(), 40);
}

#[test]
fn new_bar_names_the_missing_capability() {
    let start = RgbaPixel::default();
    let no_shm = Globals { shared_memory: false, ..all_globals() };
    let no_shell = Globals { layer_shell: false, ..all_globals() };
    let no_compositor = Globals { compositor: false, ..all_globals() };
    let nothing = Globals { compositor: false, shared_memory: false, layer_shell: false };
    assert_eq!(
        Bar::new(no_shm, start, Anchor::Top, "b", 4, 4).err(),
        Some(BarError::CapabilityMissing(Capability::SharedMemory))
    );
    assert_eq!(
        Bar::new(no_shell, start, Anchor::Top, "b", 4, 4).err(),
        Some(BarError::CapabilityMissing(Capability::LayerShell))
    );
    assert_eq!(
        Bar::new(no_compositor, start, Anchor::Top, "b", 4, 4).err(),
        Some(BarError::CapabilityMissing(Capability::Compositor))
    );
    assert_eq!(
        Bar::new(nothing, start, Anchor::Top, "b", 4, 4).err(),
        Some(BarError::CapabilityMissing(Capability::SharedMemory))
    );
}

#[test]
fn new_bar_without_a_frame_fails() {
    let start = RgbaPixel::default();
    assert_eq!(
        Bar::new(all_globals(), start, Anchor::Top, "b", 0, 40).err(),
        Some(BarError::BufferAllocationFailed)
    );
    assert_eq!(
        Bar::new(all_globals(), start, Anchor::Top, "b", u32::MAX, u32::MAX).err(),
        Some(BarError::BufferAllocationFailed)
    );
    let no_shell = Globals { layer_shell: false, ..all_globals() };
    assert_eq!(
        Bar::new(no_shell, start, Anchor::Top, "b", 0, 0).err(),
        Some(BarError::BufferAllocationFailed)
    );
}

#[test]
fn first_configure_draws_at_once() {
    let mut bar =
        Bar::new(all_globals(), RgbaPixel::default(), Anchor::Top, "embargo", 1920, 40).unwrap();
    assert_eq!(bar.instances().len(), 0);
    let mapped = bar.on_output_added(1, 11).unwrap();
    assert_eq!(
        mapped,
        vec![Action::MapSurface {
            surface: 11,
            output: 1,
            anchor: Anchor::Top,
            width: 1920,
            height: 40,
            exclusive_zone: 40,
        }]
    );
    assert_eq!(
        bar.instances(),
        &vec![BarInstance { surface: 11, output: 1, configured: false, front: None }]
    );
    assert_eq!(bar.draw(), vec![]);
    let drawn = bar.configure(11, (1920, 40));
    assert_eq!(
        drawn,
        vec![Action::Present {
            surface: 11,
            slot: 0,
            offset: 0,
            width: 1920,
            height: 40,
            stride: 7680,
        }]
    );
    assert!(bar.instances()[0].configured);
    assert_eq!(bar.instances()[0].front, Some(0));
    assert_eq!(bar.size(), (1920, 40));
    // Opaque black in wire order.
    let frame = bar.pool().frame(0);
    assert_eq!(frame.len(), 1920 * 40 * 4);
    assert!(frame.chunks(4).all(|cell| *cell == [0u8, 0, 0, 255][..]));
}

#[test]
fn later_configure_only_updates_size() {
    let mut bar = small_bar();
    bar.on_output_added(1, 11).unwrap();
    assert_eq!(bar.configure(11, (2, 1)).len(), 1);
    assert_eq!(bar.configure(11, (3, 2)), vec![]);
    assert_eq!(bar.size(), (3, 2));
    assert!(bar.instances()[0].configured);
}

#[test]
fn removed_output_takes_its_instance_along() {
    let mut bar = small_bar();
    bar.on_output_added(1, 11).unwrap();
    bar.on_output_added(2, 22).unwrap();
    assert_eq!(bar.configure(11, (2, 1)), vec![present(11, 0)]);
    assert_eq!(bar.configure(22, (2, 1)), vec![present(11, 1), present(22, 2)]);
    assert_eq!(bar.instances()[0].front, Some(1));
    assert_eq!(bar.instances()[1].front, Some(2));
    assert!(!bar.pool().is_busy(0));
    let gone = bar.on_output_removed(2);
    assert_eq!(gone, vec![Action::DestroySurface { surface: 22 }]);
    assert_eq!(
        bar.instances(),
        &vec![BarInstance { surface: 11, output: 1, configured: true, front: Some(1) }]
    );
    assert!(!bar.pool().is_busy(2));
    assert_eq!(bar.draw(), vec![present(11, 0)]);
    assert_eq!(bar.frame_done(22), vec![]);
    assert_eq!(bar.frame_done(11), vec![present(11, 1)]);
}

#[test]
fn scroll_tells_the_renderer_nothing() {
    let mut bar = small_bar();
    bar.on_output_added(1, 11).unwrap();
    let axis = PointerEvent {
        surface: 11,
        position: LogicalPosition::from_pixels(1, 1),
        kind: PointerEventKind::Axis,
    };
    assert_eq!(bar.pointer_frame(&vec![axis]), vec![]);
    assert_eq!(bar.handle(Event::Pointer(axis)), Ok(vec![]));
    assert_eq!(bar.dispatch_and_draw(&Dispatch::Batch(vec![Event::Pointer(axis)])), Ok(vec![]));
    assert!(!bar.exit());
    assert_eq!(bar.instances().len(), 1);
}

#[test]
fn press_reaches_its_own_surface_only() {
    let mut bar = small_bar();
    bar.on_output_added(1, 11).unwrap();
    bar.on_output_added(2, 22).unwrap();
    let out = bar.pointer_frame(&vec![press(11, 272)]);
    assert_eq!(
        out,
        vec![Action::Deliver {
            surface: 11,
            event: WindowEvent::PointerPressed {
                position: LogicalPosition { x: 2560, y: 1280 },
                button: PointerButton::Left,
            },
        }]
    );
}

#[test]
fn events_for_foreign_surfaces_are_dropped() {
    let mut bar = small_bar();
    bar.on_output_added(1, 11).unwrap();
    assert_eq!(bar.pointer_frame(&vec![press(99, 272)]), vec![]);
    assert_eq!(bar.pointer_event(&press(99, 272)), vec![]);
    bar.on_output_removed(1);
    assert_eq!(bar.pointer_frame(&vec![press(11, 272)]), vec![]);
}

#[test]
fn pointer_frame_keeps_order_and_drops_unknown_buttons() {
    let mut bar = small_bar();
    bar.on_output_added(1, 11).unwrap();
    bar.on_output_added(2, 22).unwrap();
    let position = LogicalPosition::from_pixels(10, 5);
    let motion = PointerEvent { surface: 22, position, kind: PointerEventKind::Motion };
    let release =
        PointerEvent { surface: 11, position, kind: PointerEventKind::Release { button: 274 } };
    let enter = PointerEvent { surface: 11, position, kind: PointerEventKind::Enter };
    let leave = PointerEvent { surface: 11, position, kind: PointerEventKind::Leave };
    let out = bar.pointer_frame(&vec![enter, motion, press(11, 7), release, leave, press(22, 273)]);
    assert_eq!(
        out,
        vec![
            Action::Deliver { surface: 22, event: WindowEvent::PointerMoved { position } },
            Action::Deliver {
                surface: 11,
                event: WindowEvent::PointerReleased { position, button: PointerButton::Middle },
            },
            Action::Deliver {
                surface: 22,
                event: WindowEvent::PointerPressed { position, button: PointerButton::Right },
            },
        ]
    );
}

#[test]
fn configure_without_size_falls_back() {
    let mut bar = small_bar();
    bar.on_output_added(1, 11).unwrap();
    let drawn = bar.configure(11, (0, 0));
    assert_eq!(bar.size(), (256, 256));
    assert_eq!(
        drawn,
        vec![Action::Present {
            surface: 11,
            slot: 0,
            offset: 0,
            width: 256,
            height: 256,
            stride: 1024,
        }]
    );
    assert_eq!(bar.pool().frame_len(), 256 * 256 * 4);
    bar.configure(11, (0, 7));
    assert_eq!(bar.size(), (256, 256));
    bar.configure(11, (7, 0));
    assert_eq!(bar.size(), (256, 256));
    bar.configure(11, (7, 9));
    assert_eq!(bar.size(), (7, 9));
}

#[test]
fn configure_of_unknown_surface_is_ignored() {
    let mut bar = small_bar();
    bar.on_output_added(1, 11).unwrap();
    assert_eq!(bar.configure(12, (5, 5)), vec![]);
    assert_eq!(bar.size(), (2, 1));
    assert!(!bar.instances()[0].configured);
}

#[test]
fn instances_follow_outputs() {
    let mut bar = small_bar();
    let script = [
        (Event::OutputAdded { output: 1, surface: 11 }, 1usize),
        (Event::OutputAdded { output: 2, surface: 22 }, 2),
        (Event::OutputAdded { output: 1, surface: 33 }, 2),
        (Event::OutputRemoved { output: 3 }, 2),
        (Event::OutputRemoved { output: 1 }, 1),
        (Event::OutputUpdated { output: 2 }, 1),
        (Event::OutputRemoved { output: 1 }, 1),
        (Event::OutputAdded { output: 1, surface: 44 }, 2),
        (Event::OutputRemoved { output: 2 }, 1),
        (Event::OutputRemoved { output: 1 }, 0),
        (Event::OutputRemoved { output: 1 }, 0),
    ];
    for (event, known) in script {
        bar.handle(event).unwrap();
        assert_eq!(bar.instances().len(), known);
    }
}

#[test]
fn duplicate_output_is_passed_over() {
    let mut bar = small_bar();
    bar.on_output_added(1, 11).unwrap();
    assert_eq!(bar.on_output_added(1, 12), Ok(vec![]));
    assert_eq!(bar.instances().len(), 1);
    assert_eq!(bar.instances()[0].surface, 11);
}

#[test]
fn output_update_changes_nothing() {
    let mut bar = small_bar();
    bar.on_output_added(1, 11).unwrap();
    bar.on_output_updated(1);
    assert_eq!(bar.handle(Event::OutputUpdated { output: 1 }), Ok(vec![]));
    assert_eq!(bar.instances(), &vec![BarInstance::new(11, 1)]);
}

#[test]
fn draw_twice_submits_the_same_bytes() {
    let mut bar = small_bar();
    bar.on_output_added(1, 11).unwrap();
    bar.software_buffer_mut()[1] = RgbaPixel::new(10, 20, 30, 40);
    let first = bar.configure(11, (2, 1));
    assert_eq!(first, vec![present(11, 0)]);
    let first_bytes = bar.pool().frame(0).to_vec();
    let second = bar.draw();
    assert_eq!(second, vec![present(11, 1)]);
    let second_bytes = bar.pool().frame(1).to_vec();
    assert_eq!(first_bytes, vec![3, 2, 1, 4, 30, 20, 10, 40]);
    assert_eq!(first_bytes, second_bytes);
}

#[test]
fn draw_never_writes_the_frame_on_screen() {
    let mut bar = small_bar();
    bar.on_output_added(1, 11).unwrap();
    assert_eq!(bar.configure(11, (2, 1)), vec![present(11, 0)]);
    let shown = bar.pool().frame(0).to_vec();
    *bar.software_buffer_mut() = vec![RgbaPixel::new(9, 9, 9, 9); 2];
    assert_eq!(bar.draw(), vec![present(11, 1)]);
    assert_eq!(bar.pool().frame(0), &shown[..]);
    assert_eq!(bar.pool().frame(1), &[9u8; 8][..]);
    assert!(bar.pool().is_busy(1));
    assert!(!bar.pool().is_busy(0));
}

#[test]
fn draw_without_configured_instance_does_nothing() {
    let mut bar = small_bar();
    assert_eq!(bar.draw(), vec![]);
    bar.on_output_added(1, 11).unwrap();
    assert_eq!(bar.draw(), vec![]);
    assert_eq!(bar.frame_done(11), vec![]);
    assert_eq!(bar.pool().slots(), 1);
    assert!(!bar.pool().is_busy(0));
}

#[test]
fn draw_after_new_size_makes_the_pool_anew() {
    let mut bar = small_bar();
    bar.on_output_added(1, 11).unwrap();
    assert_eq!(bar.configure(11, (2, 1)), vec![present(11, 0)]);
    assert_eq!(bar.draw(), vec![present(11, 1)]);
    assert_eq!(bar.configure(11, (1, 1)), vec![]);
    assert_eq!(
        bar.frame_done(11),
        vec![Action::Present { surface: 11, slot: 0, offset: 0, width: 1, height: 1, stride: 4 }]
    );
    assert_eq!(bar.pool().slots(), 1);
    assert_eq!(bar.pool().frame(0), &[3, 2, 1, 4][..]);
}

#[test]
fn draw_waits_when_no_frame_can_exist() {
    let mut bar = small_bar();
    bar.on_output_added(1, 11).unwrap();
    bar.on_output_added(2, 22).unwrap();
    assert_eq!(bar.configure(11, (u32::MAX, u32::MAX)), vec![Action::AwaitFrame { surface: 11 }]);
    assert_eq!(bar.missed_draws(), 1);
    assert_eq!(bar.frame_done(11), vec![Action::AwaitFrame { surface: 11 }]);
    assert_eq!(bar.missed_draws(), 2);
    assert_eq!((bar.pool().width(), bar.pool().height()), (2, 1));
    assert_eq!(bar.configure(11, (2, 1)), vec![]);
    assert_eq!(bar.frame_done(11), vec![present(11, 0)]);
    assert_eq!(bar.missed_draws(), 0);
}

#[test]
fn draw_waits_when_the_arena_is_full() {
    let mut bar =
        Bar::new(all_globals(), RgbaPixel::default(), Anchor::Top, "b", 1, 1).unwrap();
    bar.on_output_added(1, 11).unwrap();
    // One frame of this size takes more than half of what the arena may hold.
    let first = bar.configure(11, (300_000_000, 1));
    assert_eq!(
        first,
        vec![Action::Present {
            surface: 11,
            slot: 0,
            offset: 0,
            width: 300_000_000,
            height: 1,
            stride: 1_200_000_000,
        }]
    );
    assert_eq!(bar.missed_draws(), 0);
    assert_eq!(bar.draw(), vec![Action::AwaitFrame { surface: 11 }]);
    assert_eq!(bar.missed_draws(), 1);
    assert_eq!(bar.instances()[0].front, Some(0));
}

#[test]
fn closing_the_last_surface_raises_exit() {
    let mut bar = small_bar();
    bar.on_output_added(1, 11).unwrap();
    bar.on_output_added(2, 22).unwrap();
    assert_eq!(bar.closed(11), vec![Action::DestroySurface { surface: 11 }]);
    assert!(!bar.exit());
    assert_eq!(bar.closed(11), vec![]);
    assert!(!bar.exit());
    assert_eq!(bar.closed(22), vec![Action::DestroySurface { surface: 22 }]);
    assert!(bar.exit());
    assert_eq!(bar.instances().len(), 0);
}

#[test]
fn closing_an_unknown_surface_is_ignored() {
    let mut bar = small_bar();
    assert_eq!(bar.closed(5), vec![]);
    assert!(!bar.exit());
}

#[test]
fn removing_the_last_output_does_not_raise_exit() {
    let mut bar = small_bar();
    bar.on_output_added(1, 11).unwrap();
    bar.on_output_removed(1);
    assert!(!bar.exit());
}

#[test]
fn closed_surface_frees_its_frame() {
    let mut bar = small_bar();
    bar.on_output_added(1, 11).unwrap();
    bar.on_output_added(2, 22).unwrap();
    bar.configure(11, (2, 1));
    assert!(bar.pool().is_busy(0));
    bar.closed(11);
    assert!(!bar.pool().is_busy(0));
    assert_eq!(bar.configure(22, (2, 1)), vec![present(22, 0)]);
}

#[test]
fn pointer_is_taken_once_and_given_back_once() {
    let mut bar = small_bar();
    assert_eq!(bar.new_capability(SeatCapability::Keyboard), vec![]);
    assert!(!bar.has_pointer());
    assert_eq!(bar.new_capability(SeatCapability::Pointer), vec![Action::AcquirePointer]);
    assert!(bar.has_pointer());
    assert_eq!(bar.new_capability(SeatCapability::Pointer), vec![]);
    assert_eq!(bar.remove_capability(SeatCapability::Touch), vec![]);
    assert!(bar.has_pointer());
    assert_eq!(bar.remove_capability(SeatCapability::Pointer), vec![Action::ReleasePointer]);
    assert!(!bar.has_pointer());
    assert_eq!(bar.remove_capability(SeatCapability::Pointer), vec![]);
}

#[test]
fn revoked_shell_makes_new_outputs_fatal() {
    let mut bar = small_bar();
    bar.on_output_added(1, 11).unwrap();
    assert_eq!(bar.handle(Event::GlobalRemoved(Capability::SharedMemory)), Ok(vec![]));
    assert_eq!(bar.on_output_added(2, 22).map(|a| a.len()), Ok(1));
    assert_eq!(bar.handle(Event::GlobalRemoved(Capability::LayerShell)), Ok(vec![]));
    assert_eq!(
        bar.on_output_added(3, 33),
        Err(BarError::CapabilityMissing(Capability::LayerShell))
    );
    assert_eq!(bar.instances().len(), 2);
}

#[test]
fn lost_connection_is_fatal() {
    let mut bar = small_bar();
    bar.on_output_added(1, 11).unwrap();
    assert_eq!(bar.dispatch_and_draw(&Dispatch::Lost), Err(BarError::ConnectionLost));
    assert_eq!(bar.instances().len(), 1);
}

#[test]
fn dispatch_runs_the_batch_in_order() {
    let mut bar = small_bar();
    let batch = Dispatch::Batch(vec![
        Event::CapabilityAdded(SeatCapability::Pointer),
        Event::OutputAdded { output: 1, surface: 11 },
        Event::Configured { surface: 11, width: 2, height: 1 },
        Event::Pointer(press(11, 272)),
        Event::FrameDone { surface: 11 },
        Event::Closed { surface: 11 },
    ]);
    let out = bar.dispatch_and_draw(&batch).unwrap();
    assert_eq!(
        out,
        vec![
            Action::AcquirePointer,
            Action::MapSurface {
                surface: 11,
                output: 1,
                anchor: Anchor::Bottom,
                width: 2,
                height: 1,
                exclusive_zone: 1,
            },
            present(11, 0),
            Action::Deliver {
                surface: 11,
                event: WindowEvent::PointerPressed {
                    position: LogicalPosition::from_pixels(10, 5),
                    button: PointerButton::Left,
                },
            },
            present(11, 1),
            Action::DestroySurface { surface: 11 },
        ]
    );
    assert!(bar.exit());
    assert_eq!(bar.dispatch_and_draw(&Dispatch::Batch(vec![])), Ok(vec![]));
}

#[test]
fn dispatch_stops_at_the_first_failure() {
    let mut bar = small_bar();
    let batch = vec![
        Event::OutputAdded { output: 1, surface: 11 },
        Event::GlobalRemoved(Capability::LayerShell),
        Event::OutputAdded { output: 2, surface: 22 },
        Event::OutputAdded { output: 3, surface: 33 },
    ];
    assert_eq!(
        bar.handle_all(&batch),
        Err(BarError::CapabilityMissing(Capability::LayerShell))
    );
    assert_eq!(bar.instances().len(), 1);
}

#[test]
fn pointer_state_is_rebuilt_from_live_surfaces_only() {
    let mut bar = small_bar();
    bar.on_output_added(1, 11).unwrap();
    let position = LogicalPosition::from_pixels(3, 4);
    let elsewhere = LogicalPosition::from_pixels(30, 40);
    let events = vec![
        press(11, 272),
        PointerEvent { surface: 99, position: elsewhere, kind: PointerEventKind::Motion },
        press(99, 273),
        PointerEvent { surface: 11, position, kind: PointerEventKind::Motion },
    ];
    assert_eq!(
        bar.pointer_state(&events),
        PointerState { left: true, right: false, middle: false, position: Some(position) }
    );
    assert_eq!(
        bar.pointer_state(&vec![]),
        PointerState { left: false, right: false, middle: false, position: None }
    );
}

#[test]
fn every_instance_gets_a_frame_when_there_is_room() {
    let mut bar = small_bar();
    for output in 1..=5u32 {
        bar.on_output_added(output, output * 11).unwrap();
    }
    for output in 1..=5u32 {
        let drawn = bar.configure(output * 11, (2, 1));
        assert_eq!(drawn.len() as u32, output);
        assert!(drawn.iter().all(|action| matches!(action, Action::Present { .. })));
    }
    for _ in 0..4 {
        let drawn = bar.draw();
        let surfaces: Vec<u32> = drawn
            .iter()
            .map(|action| match action {
                Action::Present { surface, .. } => *surface,
                _ => 0,
            })
            .collect();
        assert_eq!(surfaces, vec![11, 22, 33, 44, 55]);
        assert_eq!(bar.missed_draws(), 0);
        assert!(bar.pool().slots() <= 10);
        let mut fronts: Vec<usize> =
            bar.instances().iter().map(|instance| instance.front.unwrap()).collect();
        fronts.sort();
        fronts.dedup();
        assert_eq!(fronts.len(), 5);
        for slot in 0..bar.pool().slots() {
            assert_eq!(bar.pool().is_busy(slot), fronts.contains(&slot));
        }
    }
}

#[test]
fn closed_surface_can_come_back_with_its_output() {
    let mut bar = small_bar();
    bar.on_output_added(1, 11).unwrap();
    bar.closed(11);
    assert!(bar.exit());
    assert_eq!(bar.on_output_added(1, 12).map(|actions| actions.len()), Ok(1));
    assert_eq!(bar.instances(), &vec![BarInstance::new(12, 1)]);
}
