use drm::buffer::DrmFourcc;
use shlog::display::formats::{
    self, choose_egl_config, choose_visual, fourcc_string, framebuffer_depth, planes_used,
    primary_plane_formats, read_visual, ConfigError, Plane, Visual,
};
use shlog::display::native::{DisplayAction, DrmDisplay, Outcome};
use shlog::display::setup::{
    find_setup, CardAttempt, CardSearch, Connector, Encoder, Setup,
};

const XRGB: u32 = DrmFourcc::Xrgb8888 as u32;
const ARGB: u32 = DrmFourcc::Argb8888 as u32;

#[test]
fn format_codes_are_those_of_the_kernel() {
    assert_eq!(formats::ARGB8888, ARGB);
    assert_eq!(formats::ABGR8888, DrmFourcc::Abgr8888 as u32);
    assert_eq!(formats::RGBA8888, DrmFourcc::Rgba8888 as u32);
    assert_eq!(formats::BGRA8888, DrmFourcc::Bgra8888 as u32);
}

#[test]
fn format_codes_are_spelled_out() {
    assert_eq!(fourcc_string(XRGB), "XR24");
    assert_eq!(fourcc_string(ARGB), DrmFourcc::Argb8888.to_string());
    assert_eq!(fourcc_string(0), "\0\0\0\0");
    assert_eq!(fourcc_string(0x4141_41ff), "\u{fffd}AAA");
}

#[test]
fn alpha_counts_in_the_depth() {
    for format in [ARGB, formats::ABGR8888, formats::RGBA8888, formats::BGRA8888] {
        assert_eq!(framebuffer_depth(format), 32);
    }
    assert_eq!(framebuffer_depth(XRGB), 24);
    assert_eq!(framebuffer_depth(DrmFourcc::Rgb565 as u32), 24);
}

#[test]
fn plane_entries_follow_the_number_of_planes() {
    assert_eq!(planes_used(0), [true, false, false, false]);
    assert_eq!(planes_used(1), [true, false, false, false]);
    assert_eq!(planes_used(3), [true, true, true, false]);
    assert_eq!(planes_used(9), [true, true, true, true]);
}

#[test]
fn formats_of_the_planes_of_a_crtc_are_listed_once() {
    let plane = |possible_crtcs: Vec<u32>, formats: Vec<u32>| {
        Some(Plane { possible_crtcs, formats })
    };
    let planes = vec![
        plane(vec![1, 2], vec![30, 10, 30]),
        None,
        plane(vec![1], vec![40]),
        plane(vec![2], vec![20, 10]),
    ];
    assert_eq!(primary_plane_formats(&planes, 2), [30, 10, 20]);
    assert_eq!(primary_plane_formats(&planes, 1), [30, 10, 40]);
    assert!(primary_plane_formats(&planes, 3).is_empty());
    assert!(primary_plane_formats(&vec![], 1).is_empty());
}

#[test]
fn visuals_are_known_formats_or_not() {
    assert_eq!(read_visual(None), Visual::Unreadable);
    assert_eq!(read_visual(Some(0)), Visual::Unknown);
    assert_eq!(read_visual(Some(-1)), Visual::Unknown);
    assert_eq!(read_visual(Some(XRGB as i32)), Visual::Format(XRGB));
}

#[test]
fn a_configuration_that_can_be_shown_is_chosen() {
    let ids = vec![Some(0), Some(ARGB as i32), Some(XRGB as i32), None];
    assert_eq!(choose_egl_config(&ids, &vec![XRGB]), Ok(2));
    assert_eq!(choose_egl_config(&ids, &vec![0, ARGB]), Ok(1));
    assert_eq!(choose_egl_config(&ids, &vec![]), Err(ConfigError::Unreadable(3)));
    let ids = vec![Some(0), Some(ARGB as i32), Some(XRGB as i32)];
    assert_eq!(choose_egl_config(&ids, &vec![]), Ok(1));
    assert_eq!(choose_egl_config(&vec![Some(0)], &vec![0]), Err(ConfigError::NoneUsable));
    assert_eq!(choose_egl_config(&vec![], &vec![XRGB]), Err(ConfigError::NoneUsable));
}

#[test]
fn an_unreadable_visual_ends_the_choice() {
    let visuals = vec![Visual::Format(7), Visual::Unreadable, Visual::Format(9)];
    assert_eq!(choose_visual(&visuals, &vec![9]), Err(ConfigError::Unreadable(1)));
    assert_eq!(choose_visual(&visuals, &vec![7]), Ok(0));
}

fn encoder(crtc: Option<u32>, possible_crtcs: Vec<u32>) -> Option<Encoder> {
    Some(Encoder { crtc, possible_crtcs })
}

fn connector(
    current_encoder: Option<Encoder>,
    encoders: Vec<Option<Encoder>>,
) -> Option<Connector> {
    let modes = vec![(1920, 1080), (640, 480)];
    Some(Connector { connected: true, modes, current_encoder, encoders })
}

#[test]
fn the_present_crtc_is_kept() {
    let connectors = vec![
        None,
        connector(encoder(Some(5), vec![4, 5]), vec![encoder(Some(5), vec![4, 5])]),
    ];
    let setup = Setup { connector: 1, crtc: 5, size: (1920, 1080) };
    assert_eq!(find_setup(&connectors), Some(setup));
}

#[test]
fn else_the_first_possible_crtc_is_taken() {
    let encoders = vec![None, encoder(Some(6), vec![]), encoder(None, vec![8, 9])];
    let connectors = vec![connector(encoder(Some(5), vec![4]), encoders)];
    assert_eq!(find_setup(&connectors).unwrap().crtc, 8);
}

#[test]
fn connectors_that_cannot_be_fed_are_passed_over() {
    let mut unplugged = connector(None, vec![encoder(None, vec![1])]).unwrap();
    unplugged.connected = false;
    let mut blind = connector(None, vec![encoder(None, vec![2])]).unwrap();
    blind.modes.clear();
    let unfed = connector(encoder(None, vec![3]), vec![encoder(None, vec![])]);
    let fed = connector(None, vec![encoder(None, vec![4])]);
    let mut connectors = vec![Some(unplugged), Some(blind), unfed];
    assert_eq!(find_setup(&connectors), None);
    connectors.push(fed);
    let setup = find_setup(&connectors).unwrap();
    assert_eq!((setup.connector, setup.crtc), (3, 4));
    assert_eq!(find_setup(&vec![]), None);
}

#[test]
fn the_first_usable_card_is_taken() {
    let mut search = CardSearch::new();
    assert_eq!(search.failure(), "no usable DRM card found: ");
    assert!(!search.consider("/dev/dri/card0", CardAttempt::NoDisplay));
    assert!(!search.consider("/dev/dri/card1", CardAttempt::Failed("denied".to_owned())));
    assert_eq!(
        search.failure(),
        "no usable DRM card found: /dev/dri/card0: no connected display setup; \
         /dev/dri/card1: denied"
    );
    assert!(search.consider("/dev/dri/card2", CardAttempt::Usable));
}

fn display(format: u32) -> DrmDisplay {
    DrmDisplay::new(Setup { connector: 0, crtc: 41, size: (800, 600) }, format, true)
}

/// Presents a frame in a framebuffer, with nothing going wrong.
fn present(display: &mut DrmDisplay, fb: u32) -> Vec<String> {
    let mut log = Vec::new();
    let mut action = display.present();
    loop {
        log.push(format!("{:?}", action));
        let outcome = match action {
            DisplayAction::AddPlanarFramebuffer { .. } => Outcome::Framebuffer(fb),
            DisplayAction::ReceiveEvents => Outcome::Flips(vec![7, 41]),
            DisplayAction::Finish => return log,
            _ => Outcome::Done,
        };
        action = display.on_outcome(outcome);
    }
}

#[test]
fn frames_are_shown_one_after_the_other() {
    let mut display = display(XRGB);
    assert_eq!(display.size(), (800, 600));
    assert_eq!(
        present(&mut display, 1),
        [
            "SwapBuffers",
            "LockFrontBuffer",
            "AddPlanarFramebuffer { describe: true }",
            "SetCrtc { crtc: 41, fb: 1 }",
            "Finish",
        ]
    );
    assert_eq!(
        present(&mut display, 2),
        [
            "SwapBuffers",
            "LockFrontBuffer",
            "AddPlanarFramebuffer { describe: false }",
            "PageFlip { crtc: 41, fb: 2 }",
            "ReceiveEvents",
            "DestroyFramebuffer { fb: 1 }",
            "Finish",
        ]
    );
}

#[test]
fn a_flip_is_waited_for() {
    let mut display = display(XRGB);
    present(&mut display, 1);
    display.present();
    display.on_outcome(Outcome::Done);
    display.on_outcome(Outcome::Done);
    display.on_outcome(Outcome::Framebuffer(2));
    display.on_outcome(Outcome::Done);
    for _ in 0..3 {
        let action = display.on_outcome(Outcome::Flips(vec![7]));
        assert!(matches!(action, DisplayAction::ReceiveEvents));
    }
    let action = display.on_outcome(Outcome::Flips(vec![41]));
    assert!(matches!(action, DisplayAction::DestroyFramebuffer { fb: 1 }));
    assert!(matches!(display.on_outcome(Outcome::Done), DisplayAction::Finish));
}

#[test]
fn a_framebuffer_is_made_the_old_way_if_need_be() {
    let mut display = display(ARGB);
    for explained in [true, false] {
        display.present();
        display.on_outcome(Outcome::Done);
        display.on_outcome(Outcome::Done);
        let action = display.on_outcome(Outcome::Failed("no modifiers".to_owned()));
        match action {
            DisplayAction::AddFramebuffer { depth, bits_per_pixel, explain } => {
                assert_eq!((depth, bits_per_pixel, explain), (32, 32, explained));
            }
            other => panic!("unexpected action: {:?}", other),
        }
        let action = display.on_outcome(Outcome::Failed("no memory".to_owned()));
        assert!(matches!(
            action,
            DisplayAction::Fail { error } if error
                == "add_planar_framebuffer: no modifiers; add_framebuffer fallback: no memory"
        ));
    }
}

#[test]
fn the_old_way_leads_to_the_screen_too() {
    let mut display = display(XRGB);
    display.present();
    display.on_outcome(Outcome::Done);
    display.on_outcome(Outcome::Done);
    let action = display.on_outcome(Outcome::Failed("no modifiers".to_owned()));
    assert!(matches!(action, DisplayAction::AddFramebuffer { depth: 24, .. }));
    let action = display.on_outcome(Outcome::Framebuffer(5));
    assert!(matches!(action, DisplayAction::SetCrtc { crtc: 41, fb: 5 }));
}

/// What is said when an action of a frame or of the restoring fails.
fn complaint(display: &mut DrmDisplay, mut action: DisplayAction, failing: &str) -> String {
    loop {
        let failed = format!("{:?}", action).starts_with(failing);
        let outcome = match action {
            _ if failed => Outcome::Failed("E".to_owned()),
            DisplayAction::AddPlanarFramebuffer { .. } => Outcome::Framebuffer(9),
            DisplayAction::ReceiveEvents => Outcome::Flips(vec![41]),
            DisplayAction::Fail { error } => return error,
            DisplayAction::Finish => panic!("nothing failed"),
            _ => Outcome::Done,
        };
        action = display.on_outcome(outcome);
    }
}

#[test]
fn failures_are_named() {
    for (failing, said) in [
        ("SwapBuffers", "eglSwapBuffers: E"),
        ("LockFrontBuffer", "lock_front_buffer: E"),
        ("SetCrtc", "set_crtc: E"),
    ] {
        let mut display = display(XRGB);
        let action = display.present();
        assert_eq!(complaint(&mut display, action, failing), said);
    }
    for (failing, said) in [
        ("PageFlip", "page_flip: E"),
        ("ReceiveEvents", "E"),
        ("DestroyFramebuffer", "destroy_framebuffer: E"),
    ] {
        let mut display = display(XRGB);
        present(&mut display, 1);
        let action = display.present();
        assert_eq!(complaint(&mut display, action, failing), said);
    }
    for (failing, said) in [
        ("RestoreCrtc", "restore set_crtc: E"),
        ("DestroyFramebuffer", "restore destroy_framebuffer: E"),
    ] {
        let mut display = display(XRGB);
        present(&mut display, 1);
        let action = display.restore();
        assert_eq!(complaint(&mut display, action, failing), said);
    }
}

#[test]
fn what_was_shown_at_first_is_put_back() {
    let mut shown = display(XRGB);
    present(&mut shown, 3);
    let action = shown.restore();
    assert!(matches!(action, DisplayAction::RestoreCrtc { crtc: 41, with_connector: true }));
    let action = shown.on_outcome(Outcome::Done);
    assert!(matches!(action, DisplayAction::DestroyFramebuffer { fb: 3 }));
    assert!(matches!(shown.on_outcome(Outcome::Done), DisplayAction::Finish));

    let setup = Setup { connector: 0, crtc: 41, size: (800, 600) };
    let mut unused = DrmDisplay::new(setup, XRGB, false);
    let action = unused.restore();
    assert!(matches!(action, DisplayAction::RestoreCrtc { with_connector: false, .. }));
    assert!(matches!(unused.on_outcome(Outcome::Done), DisplayAction::Finish));
}

#[test]
fn a_later_frame_can_be_made_the_old_way_and_waited_for_long() {
    let mut display = display(XRGB);
    present(&mut display, 1);
    display.present();
    display.on_outcome(Outcome::Done);
    display.on_outcome(Outcome::Done);
    let action = display.on_outcome(Outcome::Failed("no modifiers".to_owned()));
    assert!(matches!(action, DisplayAction::AddFramebuffer { depth: 24, explain: true, .. }));
    let action = display.on_outcome(Outcome::Framebuffer(2));
    assert!(matches!(action, DisplayAction::PageFlip { crtc: 41, fb: 2 }));
    display.on_outcome(Outcome::Done);
    for n in 0..5 {
        let action = display.on_outcome(Outcome::Flips(vec![7; n]));
        assert!(matches!(action, DisplayAction::ReceiveEvents));
    }
    let action = display.on_outcome(Outcome::Flips(vec![7, 41]));
    assert!(matches!(action, DisplayAction::DestroyFramebuffer { fb: 1 }));
    assert!(matches!(display.on_outcome(Outcome::Done), DisplayAction::Finish));
    assert!(display.is_idle());
}
