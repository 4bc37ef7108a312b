use region_capture::bridge::EventBridge;
use region_capture::clipboard::ImplClipboard;
use region_capture::error::CaptureError;
use region_capture::hotkey::{decode_hotkey_message, HotkeyManager};
use region_capture::lifecycle::{Event, SelectionRect};
use region_capture::preview::PreviewWindowState;

#[test]
fn clipboard_round_trip_is_byte_identical() {
    let mut clipboard = ImplClipboard::new();
    assert!(clipboard.get_image().is_none());
    let bytes: Vec<u8> = (0u16..2 * 3 * 4).map(|i| (i * 7 % 256) as u8).collect();
    clipboard.set_image(2, 3, bytes.clone()).unwrap();
    let back = clipboard.get_image().as_ref().unwrap();
    assert_eq!(back.width, 2);
    assert_eq!(back.height, 3);
    assert_eq!(back.pixels, bytes);
}

#[test]
fn clipboard_text_slot_is_independent_of_the_image_slot() {
    let mut clipboard = ImplClipboard::new();
    clipboard.set_image(1, 1, vec![1, 2, 3, 4]).unwrap();
    clipboard.set_text(String::from("#a1b2c3")).unwrap();
    assert_eq!(clipboard.text.as_deref(), Some("#a1b2c3"));
    assert_eq!(clipboard.get_image().as_ref().unwrap().pixels, vec![1, 2, 3, 4]);
}

#[test]
fn bridge_delivers_in_order_exactly_once() {
    let mut bridge = EventBridge::new(8);
    bridge.offer(Event::HotkeyArmed);
    bridge.offer(Event::SelectionCommitted(SelectionRect { x: 1, y: 2, width: 3, height: 4 }));
    bridge.offer(Event::SelectionCancelled);
    assert_eq!(bridge.poll(), Some(Event::HotkeyArmed));
    assert_eq!(
        bridge.poll(),
        Some(Event::SelectionCommitted(SelectionRect { x: 1, y: 2, width: 3, height: 4 }))
    );
    assert_eq!(bridge.poll(), Some(Event::SelectionCancelled));
    assert_eq!(bridge.poll(), None);
    assert_eq!(bridge.poll(), None);
}

#[test]
fn bridge_reports_room_up_to_its_capacity() {
    let mut bridge = EventBridge::new(2);
    assert!(bridge.has_room());
    bridge.offer(Event::HotkeyArmed);
    assert!(bridge.has_room());
    bridge.offer(Event::HotkeyCancel);
    assert!(!bridge.has_room());
    assert_eq!(bridge.poll(), Some(Event::HotkeyArmed));
    assert!(bridge.has_room());
}

#[test]
fn registering_a_bound_combination_conflicts() {
    let mut manager = HotkeyManager::new();
    // ALT bitmask 0x1, virtual key code 0x51 ('Q'), as the capture hotkey.
    assert!(manager.register_hotkey(1, 0x1, 0x51).is_ok());
    assert_eq!(
        manager.register_hotkey(2, 0x1, 0x51),
        Err(CaptureError::HotkeyConflict)
    );
    // A different combination still registers.
    assert!(manager.register_hotkey(2, 0x0, 0x1B).is_ok());
    assert!(manager.is_bound(0x1, 0x51));
    assert!(!manager.is_bound(0x2, 0x51));
}

#[test]
fn hotkey_ids_match_enabled_bindings_until_shutdown() {
    let mut manager = HotkeyManager::new();
    manager.register_hotkey(7, 0x1, 0x51).unwrap();
    manager.register_hotkey(8, 0x0, 0x1B).unwrap();
    assert!(manager.is_enabled(7));
    assert!(manager.is_enabled(8));
    assert!(!manager.is_enabled(9));
    manager.stop_listening();
    assert!(!manager.is_enabled(7));
    assert!(!manager.is_enabled(8));
    assert_eq!(manager.bindings.len(), 0);
}

#[test]
fn hotkey_message_word_splits_into_modifiers_and_key() {
    let lparam: u32 = (0x51 << 16) | 0x0001;
    assert_eq!(decode_hotkey_message(lparam), (0x0001, 0x51));
    assert_eq!(decode_hotkey_message(0), (0, 0));
    assert_eq!(decode_hotkey_message(0xFFFF_FFFF), (0xFFFF, 0xFFFF));
}

#[test]
fn preview_copies_whole_pixels_and_zeroes_the_rest() {
    let data: Vec<u8> = (0u8..16).collect();
    let full = PreviewWindowState::new(data.clone(), 2, 2);
    assert_eq!(full.pixels, data);
    assert_eq!(full.width, 2);
    assert_eq!(full.height, 2);
    assert!(!full.visible);

    // Ten bytes cover pixels 0 and 1 only; pixels 2 and 3 stay zero.
    let short = PreviewWindowState::new(data[..10].to_vec(), 2, 2);
    assert_eq!(&short.pixels[..8], &data[..8]);
    assert!(short.pixels[8..].iter().all(|&b| b == 0));
}

#[test]
fn preview_show_and_position() {
    let mut preview = PreviewWindowState::new(vec![0; 4], 1, 1);
    preview.set_position(-40, 25);
    preview.show();
    assert!(preview.visible);
    assert_eq!((preview.x, preview.y), (-40, 25));
}
