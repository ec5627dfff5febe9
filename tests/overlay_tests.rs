use subs_overlay_lib::manager::{
    settle_window_report, WindowReport, create_text_overlay, remove_overlay, update_overlay_text, with_live_text, OverlayManager,
    WindowCommand,
};
use subs_overlay_lib::overlay::{FontSize, InputProblem, OverlayConfig, OverlayError, TextConfig};
use subs_overlay_lib::registry::OverlayRegistry;
use subs_overlay_lib::window_manager::{
    extended_style, window_style, WindowStyle, OVERLAY_ALPHA, WS_EX_LAYERED, WS_EX_TRANSPARENT,
};

fn font(px: f32) -> FontSize {
    FontSize { bits: px.to_bits() }
}

fn config(content: &str, color: &str) -> OverlayConfig {
    OverlayConfig {
        text: TextConfig {
            content: content.to_string(),
            font_size: font(24.0),
            color: color.to_string(),
            position: (100, 100),
        },
        width: 300,
        height: 100,
        transparent: true,
        always_on_top: true,
        ignore_input: true,
    }
}

#[test]
fn test_overlay_creation() {
    let _manager = OverlayManager::new();

    let text_config = TextConfig {
        content: "Test".to_string(),
        font_size: font(24.0),
        color: "#FFFFFFFF".to_string(),
        position: (100, 100),
    };

    let _overlay_config = OverlayConfig {
        text: text_config,
        width: 300,
        height: 100,
        transparent: true,
        always_on_top: true,
        ignore_input: true,
    };
}

#[test]
fn test_overlay_persistence() {
    // The overlay stays registered after creation, and the making of its
    // window (which keeps a strong reference) is queued for the GUI thread.
    let mut manager = OverlayManager::new();
    let overlay_id = manager
        .create_overlay(config("Test Persistence", "#FFFFFFFF"))
        .expect("Overlay not found in manager");
    assert!(manager.list_overlays().contains(&overlay_id));
    let commands = manager.take_commands();
    assert!(
        matches!(&commands[0], WindowCommand::Create { id, .. } if *id == overlay_id),
        "Window should be alive"
    );
}

#[test]
fn scenario_create_get_remove() {
    let mut manager = OverlayManager::new();
    let cfg = OverlayConfig {
        text: TextConfig {
            content: "Hi".to_string(),
            font_size: font(20.0),
            color: "#FFFFFFFF".to_string(),
            position: (10, 10),
        },
        width: 300,
        height: 100,
        transparent: true,
        always_on_top: true,
        ignore_input: true,
    };
    let id = manager.create_overlay(cfg).unwrap();
    assert_eq!(id.len(), 36);
    let got = manager.get_overlay_config(&id).unwrap();
    assert_eq!(got.text.content, "Hi");
    assert_eq!(got.text.position, (10, 10));
    assert_eq!(got.text.font_size, font(20.0));
    manager.remove_overlay(&id).unwrap();
    assert!(matches!(manager.get_overlay_config(&id), Err(OverlayError::OverlayNotFound(x)) if x == id));
}

#[test]
fn invalid_color_leaves_registry_unchanged() {
    let mut manager = OverlayManager::new();
    let first = manager.create_overlay(config("a", "#FF0000")).unwrap();
    manager.take_commands();
    let r = manager.create_overlay(config("b", "FF0000"));
    assert!(matches!(r, Err(OverlayError::InvalidColor(c)) if c == "FF0000"));
    let r = manager.create_overlay(config("c", "#FF00000"));
    assert!(matches!(r, Err(OverlayError::InvalidColor(_))));
    assert_eq!(manager.list_overlays(), vec![first]);
    assert!(manager.take_commands().is_empty());
}

#[test]
fn removed_id_is_not_listed_before_teardown() {
    let mut manager = OverlayManager::new();
    let id = manager.create_overlay(config("x", "#FFF")).unwrap();
    let keep = manager.create_overlay(config("y", "#FFF")).unwrap();
    manager.remove_overlay(&id).unwrap();
    let listed = manager.list_overlays();
    assert!(!listed.contains(&id));
    assert!(listed.contains(&keep));
    // the release of the window is still waiting for the GUI thread
    let commands = manager.take_commands();
    assert!(matches!(commands.last(), Some(WindowCommand::Release { id: x }) if *x == id));
}

#[test]
fn created_ids_are_distinct_and_listed() {
    let mut manager = OverlayManager::new();
    let mut ids = Vec::new();
    for i in 0..20 {
        ids.push(manager.create_overlay(config(&format!("n{i}"), "#000")).unwrap());
    }
    let listed = manager.list_overlays();
    assert_eq!(listed.len(), 20);
    for (i, a) in ids.iter().enumerate() {
        assert!(listed.contains(a));
        for b in &ids[i + 1..] {
            assert_ne!(a, b);
        }
    }
}

#[test]
fn duplicate_id_is_refused() {
    let mut manager = OverlayManager::new();
    let id = "fixed".to_string();
    assert_eq!(manager.create_overlay_with_id(id.clone(), config("a", "#FFF")).unwrap(), id);
    let r = manager.create_overlay_with_id(id.clone(), config("b", "#FFF"));
    assert!(matches!(r, Err(OverlayError::DuplicateId(x)) if x == id));
    assert_eq!(manager.get_overlay_config(&id).unwrap().text.content, "a");
}

#[test]
fn update_text_on_removed_id_strict_and_lenient() {
    let mut manager = OverlayManager::new();
    let id = manager.create_overlay(config("x", "#FFF")).unwrap();
    manager.remove_overlay(&id).unwrap();
    manager.take_commands();
    let r = manager.update_text(&id, "again");
    assert!(matches!(r, Err(OverlayError::OverlayNotFound(x)) if x == id));
    assert!(!update_overlay_text(&mut manager, &id, "again"));
    assert!(manager.take_commands().is_empty());
    assert!(manager.list_overlays().is_empty());
}

#[test]
fn update_text_changes_config_and_queues() {
    let mut manager = OverlayManager::new();
    let id = manager.create_overlay(config("old", "#FFF")).unwrap();
    manager.take_commands();
    manager.update_text(&id, "new").unwrap();
    assert_eq!(manager.get_overlay_config(&id).unwrap().text.content, "new");
    let commands = manager.take_commands();
    assert_eq!(commands.len(), 1);
    assert!(matches!(&commands[0], WindowCommand::SetText { id: x, content } if *x == id && content == "new"));

    assert!(update_overlay_text(&mut manager, &id, "newer"));
    let commands = manager.take_commands();
    assert_eq!(commands.len(), 2);
    assert!(matches!(&commands[0], WindowCommand::SetText { content, .. } if content == "newer"));
    assert!(matches!(&commands[1], WindowCommand::Show { width: 300, height: 100, .. }));
}

#[test]
fn create_queues_window_and_style() {
    let mut manager = OverlayManager::new();
    let mut cfg = config("styled", "#80112233");
    cfg.transparent = false;
    cfg.ignore_input = true;
    cfg.always_on_top = false;
    let id = manager.create_overlay(cfg).unwrap();
    let commands = manager.take_commands();
    assert_eq!(commands.len(), 2);
    match &commands[0] {
        WindowCommand::Create { id: x, content, font_size, argb } => {
            assert_eq!(*x, id);
            assert_eq!(content, "styled");
            assert_eq!(*font_size, font(24.0));
            assert_eq!(*argb, 0x80112233);
        }
        other => panic!("unexpected {other:?}"),
    }
    match &commands[1] {
        WindowCommand::ApplyStyle { style, .. } => {
            assert_eq!(
                *style,
                WindowStyle { layered: true, click_through: true, alpha: None, topmost: false }
            );
        }
        other => panic!("unexpected {other:?}"),
    }
    assert!(manager.take_commands().is_empty());
}

#[test]
fn show_hide_position_and_unknown_ids() {
    let mut manager = OverlayManager::new();
    let id = manager.create_overlay(config("s", "#FFF")).unwrap();
    manager.take_commands();
    manager.show_overlay(&id).unwrap();
    manager.hide_overlay(&id).unwrap();
    manager.update_position(&id, -5, 7).unwrap();
    assert_eq!(manager.get_overlay_config(&id).unwrap().text.position, (-5, 7));
    let commands = manager.take_commands();
    assert_eq!(commands.len(), 2);
    assert!(matches!(&commands[0], WindowCommand::Show { width: 300, height: 100, font_size, .. } if *font_size == font(24.0)));
    assert!(matches!(&commands[1], WindowCommand::Hide { .. }));

    let ghost = "missing".to_string();
    assert!(matches!(manager.show_overlay(&ghost), Err(OverlayError::OverlayNotFound(_))));
    assert!(matches!(manager.hide_overlay(&ghost), Err(OverlayError::OverlayNotFound(_))));
    assert!(matches!(manager.update_position(&ghost, 1, 1), Err(OverlayError::OverlayNotFound(_))));
    assert!(matches!(manager.remove_overlay(&ghost), Err(OverlayError::OverlayNotFound(_))));
    assert!(!remove_overlay(&mut manager, &ghost));
    assert!(remove_overlay(&mut manager, &id));
    assert!(manager.take_commands().len() == 1);
}

#[test]
fn quick_text_overlay() {
    let mut manager = OverlayManager::new();
    let id = create_text_overlay(&mut manager, "Hello", 200, 210, 500, 100).unwrap();
    let cfg = manager.get_overlay_config(&id).unwrap();
    assert_eq!(cfg.text.content, "Hello");
    assert_eq!(cfg.text.color, "#FFFFFFFF");
    assert_eq!(cfg.text.font_size, font(24.0));
    assert_eq!(cfg.text.position, (200, 210));
    assert_eq!((cfg.width, cfg.height), (500, 100));
    assert!(cfg.transparent && cfg.always_on_top && cfg.ignore_input);
    let commands = manager.take_commands();
    assert_eq!(commands.len(), 3);
    assert!(matches!(&commands[0], WindowCommand::Create { argb: 0xFFFFFFFF, .. }));
    assert!(matches!(
        &commands[1],
        WindowCommand::ApplyStyle {
            style: WindowStyle { layered: true, click_through: true, alpha: Some(OVERLAY_ALPHA), topmost: true },
            ..
        }
    ));
    assert!(matches!(&commands[2], WindowCommand::Show { .. }));
}

#[test]
fn live_text_wins() {
    let cfg = config("stored", "#FFF");
    assert_eq!(with_live_text(cfg.clone(), Some("live".to_string())).text.content, "live");
    assert_eq!(with_live_text(cfg, None).text.content, "stored");
}

#[test]
fn registry_operations() {
    let mut registry = OverlayRegistry::new();
    let a = "a".to_string();
    let b = "b".to_string();
    assert!(registry.insert(a.clone(), config("1", "#FFF")).is_none());
    assert!(registry.insert(b.clone(), config("2", "#FFF")).is_none());
    let previous = registry.insert(a.clone(), config("3", "#FFF")).unwrap();
    assert_eq!(previous.text.content, "1");
    assert_eq!(registry.get(&a).unwrap().text.content, "3");
    assert!(registry.contains(&b));
    assert_eq!(registry.list_ids(), vec![a.clone(), b.clone()]);
    assert_eq!(registry.remove(&b).unwrap().text.content, "2");
    assert!(registry.remove(&b).is_none());
    assert!(registry.get(&b).is_none());
    registry.clear();
    assert!(registry.list_ids().is_empty());
}

#[test]
fn style_bits() {
    let s = window_style(true, true, false);
    assert_eq!(s, WindowStyle { layered: true, click_through: false, alpha: Some(200), topmost: true });
    assert_eq!(extended_style(0x100, &s), 0x100 | WS_EX_LAYERED);
    let s = window_style(false, false, true);
    assert_eq!(extended_style(0, &s), WS_EX_LAYERED | WS_EX_TRANSPARENT);
    assert_eq!(extended_style(0x0008_0020, &s), 0x0008_0020);
    let s = window_style(false, false, false);
    assert_eq!(s, WindowStyle { layered: false, click_through: false, alpha: None, topmost: false });
    assert_eq!(extended_style(0x40, &s), 0x40);
}

#[test]
fn out_of_range_input_is_refused() {
    let mut manager = OverlayManager::new();
    let kept = manager.create_overlay(config("kept", "#FFF")).unwrap();
    manager.take_commands();

    let mut cfg = config("w", "#FFF");
    cfg.width = 0;
    assert!(matches!(manager.create_overlay(cfg), Err(OverlayError::InvalidInput(InputProblem::Width(0)))));
    let mut cfg = config("h", "#FFF");
    cfg.height = -3;
    assert!(matches!(manager.create_overlay(cfg), Err(OverlayError::InvalidInput(InputProblem::Height(-3)))));
    for bad in [0.0f32, -1.0, f32::INFINITY, f32::NAN] {
        let mut cfg = config("f", "#FFF");
        cfg.text.font_size = font(bad);
        assert!(matches!(manager.create_overlay(cfg), Err(OverlayError::InvalidInput(InputProblem::FontSize(_)))));
    }
    // a bad color is reported before a bad size
    let mut cfg = config("c", "red");
    cfg.width = 0;
    assert!(matches!(manager.create_overlay(cfg), Err(OverlayError::InvalidColor(_))));

    let mut cfg = config("tiny", "#FFF");
    cfg.text.font_size = FontSize { bits: 1 };
    assert!(manager.create_overlay(cfg).is_ok());
    manager.take_commands();

    assert!(matches!(
        create_text_overlay(&mut manager, "x", 0, 0, 10, 0),
        Err(OverlayError::InvalidInput(InputProblem::Height(0)))
    ));
    assert!(matches!(
        create_text_overlay(&mut manager, "x", 0, 0, -1, 5),
        Err(OverlayError::InvalidInput(InputProblem::Width(-1)))
    ));
    assert_eq!(manager.list_overlays().len(), 2);
    assert!(manager.list_overlays().contains(&kept));
    assert!(manager.take_commands().is_empty());
}

#[test]
fn fresh_ids_are_hyphenated_uuids() {
    let mut manager = OverlayManager::new();
    let id = manager.create_overlay(config("u", "#FFF")).unwrap();
    assert_eq!(id.len(), 36);
    for (i, c) in id.chars().enumerate() {
        if [8, 13, 18, 23].contains(&i) {
            assert_eq!(c, '-');
        } else {
            assert!(c.is_ascii_digit() || ('a'..='f').contains(&c), "{id}");
        }
    }
}

#[test]
fn window_reports_settle_to_errors() {
    assert!(settle_window_report(WindowReport::Applied).is_ok());
    assert!(matches!(
        settle_window_report(WindowReport::Failed("show refused".to_string())),
        Err(OverlayError::PlatformError(m)) if m == "show refused"
    ));
    assert!(matches!(
        settle_window_report(WindowReport::Unreachable("no event loop".to_string())),
        Err(OverlayError::EventQueueError(m)) if m == "no event loop"
    ));
}

#[test]
fn creates_add_exactly_their_ids_to_the_listing() {
    let mut manager = OverlayManager::new();
    let before = manager.create_overlay_with_id("before".to_string(), config("b", "#FFF")).unwrap();
    let a = manager.create_overlay(config("a", "#FFF")).unwrap();
    let b = manager.create_overlay(config("b", "#FFF")).unwrap();
    let mut listed = manager.list_overlays();
    listed.sort();
    let mut expected = vec![before, a, b];
    expected.sort();
    assert_eq!(listed, expected);
}
