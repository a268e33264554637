use interpolate::tray::{tray_updated, InterpolateTray, TrayCommand};

#[test]
fn tray_shows_what_runs() {
    let idle = InterpolateTray { running: false };
    let busy = InterpolateTray { running: true };
    assert_eq!(idle.id(), "interpolate");
    assert_eq!(idle.title(), "Interpolate");
    assert_eq!(busy.title(), "Interpolate · Processing");
    assert_eq!(idle.icon_name(), "video-x-generic");
    assert_eq!(idle.activate(), TrayCommand::Show);
    let menu = idle.menu();
    let labels: Vec<&str> = menu.iter().map(|entry| entry.label).collect();
    assert_eq!(labels, ["Show Interpolate", "Cancel job", "Quit"]);
    assert!(menu[0].enabled && !menu[1].enabled && menu[2].enabled);
    assert!(busy.menu()[1].enabled);
    assert_eq!(menu[2].command, TrayCommand::Quit);
    assert_eq!(menu[1].icon_name, "process-stop");
}

#[test]
fn tray_has_to_stay() {
    assert_eq!(tray_updated(false, true, false), Ok(()));
    for (before, updated, after) in [
        (true, true, false),
        (false, false, false),
        (false, true, true),
    ] {
        assert_eq!(
            tray_updated(before, updated, after),
            Err("system tray stopped unexpectedly".to_owned())
        );
    }
}
