use display_rtsp_streamer::capture::CaptureSize;
use display_rtsp_streamer::capture::DisplayInfoRecord;
use display_rtsp_streamer::capture::EnumerationError;
use display_rtsp_streamer::capture::build_display_list;
use display_rtsp_streamer::capture::display_name;

#[test]
fn two_displays_sorted_primary_first() {
    // Capture subsystem reports the secondary display first; display-info
    // knows the positions. The final list is sorted by origin.
    let sizes = vec![
        CaptureSize { width: 1920, height: 1080 },
        CaptureSize { width: 800, height: 600 },
    ];
    let infos = vec![
        DisplayInfoRecord { x: 0, y: 0, width: 800, height: 600, is_primary: true },
        DisplayInfoRecord { x: 800, y: 0, width: 1920, height: 1080, is_primary: false },
    ];
    let list = build_display_list(&sizes, &infos).unwrap();
    assert_eq!(list.len(), 2);
    assert_eq!(list[0].index, 0);
    assert_eq!(list[0].x, 0);
    assert_eq!(list[0].y, 0);
    assert_eq!(list[0].width, 800);
    assert_eq!(list[0].height, 600);
    assert!(list[0].is_primary);
    assert_eq!(list[1].index, 1);
    assert_eq!(list[1].x, 800);
    assert_eq!(list[1].y, 0);
    assert_eq!(list[1].width, 1920);
    assert_eq!(list[1].height, 1080);
    assert!(!list[1].is_primary);
    // Names follow the capture subsystem's enumeration order, assigned
    // before the sort.
    assert_eq!(list[0].name, "Display 1");
    assert_eq!(list[1].name, "Display 0");
}

#[test]
fn origins_non_decreasing_across_indices() {
    let sizes = vec![
        CaptureSize { width: 1024, height: 768 },
        CaptureSize { width: 640, height: 480 },
        CaptureSize { width: 1280, height: 720 },
    ];
    let infos = vec![
        DisplayInfoRecord { x: 1024, y: 0, width: 640, height: 480, is_primary: false },
        DisplayInfoRecord { x: 0, y: 0, width: 1024, height: 768, is_primary: true },
        DisplayInfoRecord { x: 1024, y: 480, width: 1280, height: 720, is_primary: false },
    ];
    let list = build_display_list(&sizes, &infos).unwrap();
    assert_eq!(list.len(), 3);
    for k in 1..list.len() {
        let a = (list[k - 1].x, list[k - 1].y);
        let b = (list[k].x, list[k].y);
        assert!(a <= b);
    }
    for (k, d) in list.iter().enumerate() {
        assert_eq!(d.index, k);
    }
}

#[test]
fn no_displays_is_an_error() {
    let sizes: Vec<CaptureSize> = Vec::new();
    let infos: Vec<DisplayInfoRecord> = Vec::new();
    let r = build_display_list(&sizes, &infos);
    assert!(matches!(r, Err(EnumerationError::NoDisplays)));
}

#[test]
fn unmatched_display_defaults() {
    // No display-info record matches: origin defaults to (0, 0) and only
    // the first display counts as primary.
    let sizes = vec![
        CaptureSize { width: 1024, height: 768 },
        CaptureSize { width: 800, height: 600 },
    ];
    let infos: Vec<DisplayInfoRecord> = Vec::new();
    let list = build_display_list(&sizes, &infos).unwrap();
    assert_eq!(list.len(), 2);
    assert_eq!((list[0].x, list[0].y), (0, 0));
    assert_eq!((list[1].x, list[1].y), (0, 0));
    assert!(list[0].is_primary);
    assert!(!list[1].is_primary);
    assert_eq!(list[0].name, "Display 0");
    assert_eq!(list[1].name, "Display 1");
}

#[test]
fn equal_resolutions_pair_first_unmatched() {
    // Two displays with identical resolutions: each capture entry takes the
    // first display-info record not yet claimed, in order.
    let sizes = vec![
        CaptureSize { width: 1000, height: 1000 },
        CaptureSize { width: 1000, height: 1000 },
    ];
    let infos = vec![
        DisplayInfoRecord { x: 500, y: 0, width: 1000, height: 1000, is_primary: false },
        DisplayInfoRecord { x: 0, y: 0, width: 1000, height: 1000, is_primary: true },
    ];
    let list = build_display_list(&sizes, &infos).unwrap();
    assert_eq!(list.len(), 2);
    // Capture entry 0 claimed the record at x=500, entry 1 the one at x=0;
    // the sort then puts x=0 first.
    assert_eq!(list[0].x, 0);
    assert!(list[0].is_primary);
    assert_eq!(list[0].name, "Display 1");
    assert_eq!(list[1].x, 500);
    assert!(!list[1].is_primary);
    assert_eq!(list[1].name, "Display 0");
}

#[test]
fn display_names_render_decimal_positions() {
    assert_eq!(display_name(0), "Display 0");
    assert_eq!(display_name(7), "Display 7");
    assert_eq!(display_name(10), "Display 10");
    assert_eq!(display_name(305), "Display 305");
}
