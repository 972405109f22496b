//! The keyboard FIFO and decoder, the tone player, the clock, and the
//! small boot-time computations.

use redk::kernel::KernelState;
use redk::keyboard::{receive_scan, Key, Modifiers, ScanBuffer, SCAN_BUFFER_SIZE};
use redk::speaker::{start_melody, tick as speaker_tick, Melody, SpeakerState, Tone};
use redk::startup::{executable_from_cmdline, memory_bounds, MemRegion};
use redk::strings::{bytes_eq, copy_range, cstr_at, strlen_at};
use redk::timer;
use redk::vga::{Color, ColorCode, ScreenChar};
use redk::interrupts::{isr_generic_handler, InterruptContext};

#[test]
fn scan_buffer_is_a_fifo() {
    let mut buffer = ScanBuffer::new();
    assert!(buffer.is_empty());
    assert!(!buffer.is_full());
    assert!(buffer.write(1));
    assert!(buffer.write(2));
    assert!(buffer.write(3));
    assert_eq!(buffer.read(), Some(1));
    assert_eq!(buffer.read(), Some(2));
    assert_eq!(buffer.read(), Some(3));
    assert_eq!(buffer.read(), None);
}

#[test]
fn scan_buffer_refuses_writes_when_full() {
    let mut buffer = ScanBuffer::new();
    for i in 0..SCAN_BUFFER_SIZE {
        assert!(buffer.write(i as u8));
    }
    assert!(buffer.is_full());
    assert!(!buffer.write(99));
    // the queued codes survive the refused write, in order
    for i in 0..SCAN_BUFFER_SIZE {
        assert_eq!(buffer.read(), Some(i as u8));
    }
    assert!(buffer.is_empty());
}

#[test]
fn scan_buffer_wraps_around() {
    let mut buffer = ScanBuffer::new();
    for round in 0..5u8 {
        for i in 0..10u8 {
            assert!(buffer.write(round * 10 + i));
        }
        for i in 0..10u8 {
            assert_eq!(buffer.read(), Some(round * 10 + i));
        }
    }
}

#[test]
fn receive_scan_drops_on_a_full_buffer() {
    let mut buffer = ScanBuffer::new();
    for i in 0..SCAN_BUFFER_SIZE + 4 {
        receive_scan(&mut buffer, i as u8);
    }
    assert_eq!(buffer.read(), Some(0));
}

#[test]
fn keys_decode_from_scan_codes() {
    assert_eq!(Key::from_scan(0x1E, false), Some(Key::Char(b'a')));
    assert_eq!(Key::from_scan(0x1E, true), Some(Key::Char(b'A')));
    // the released bit is masked off
    assert_eq!(Key::from_scan(0x9E, false), Some(Key::Char(b'a')));
    assert_eq!(Key::from_scan(0x2A, false), Some(Key::LShift));
    assert_eq!(Key::from_scan(0x39, false), Some(Key::Space));
    assert_eq!(Key::from_scan(0x7F, false), None);
}

#[test]
fn keys_turn_into_text() {
    assert_eq!(Key::Enter.into_char(), Some(b'\n'));
    assert_eq!(Key::Space.into_char(), Some(b' '));
    assert_eq!(Key::Char(b'z').into_char(), Some(b'z'));
    assert_eq!(Key::F1.into_char(), None);
}

#[test]
fn modifiers_track_the_shift_keys() {
    let mut mods = Modifiers::new();
    assert!(!mods.shift());
    mods.receive_scan(0x2A); // left shift pressed
    assert!(mods.shift());
    mods.receive_scan(0xAA); // left shift released
    assert!(!mods.shift());
    mods.receive_scan(0x36); // right shift pressed
    assert!(mods.shift());
    mods.receive_scan(0x1E); // an ordinary key changes nothing
    assert!(mods.shift());
}

#[test]
fn melody_plays_tones_in_order() {
    let tones = vec![Tone::new(440, 100), Tone::new(880, 200)];
    let mut melody = Melody::new(tones, false);
    assert!(!melody.is_repeating());
    assert_eq!(melody.next(), Some(Tone::new(440, 100)));
    assert_eq!(melody.next(), Some(Tone::new(880, 200)));
    assert_eq!(melody.next(), None);
    assert_eq!(melody.next(), None);
}

#[test]
fn repeating_melody_starts_over() {
    let tones = vec![Tone::new(1, 1), Tone::new(2, 2)];
    let mut melody = Melody::new(tones, true);
    assert_eq!(melody.next(), Some(Tone::new(1, 1)));
    assert_eq!(melody.next(), Some(Tone::new(2, 2)));
    assert_eq!(melody.next(), Some(Tone::new(1, 1)));
    assert_eq!(melody.next(), Some(Tone::new(2, 2)));
}

#[test]
fn tone_end_marker() {
    assert!(Tone::new_end().is_end());
    assert!(!Tone::new(440, 1).is_end());
}

#[test]
fn the_player_advances_with_the_clock() {
    let mut sp = SpeakerState::new();
    start_melody(&mut sp, vec![Tone::new(440, 30), Tone::new(880, 50)], false, 0);
    assert!(sp.enabled);
    assert_eq!(sp.frequency, Some(440));
    assert_eq!(sp.tone_end_date, 30);

    speaker_tick(&mut sp, 10); // the first tone still sounds
    assert_eq!(sp.frequency, Some(440));

    speaker_tick(&mut sp, 30); // its end date has passed
    assert_eq!(sp.frequency, Some(880));
    assert_eq!(sp.tone_end_date, 80);

    speaker_tick(&mut sp, 80); // the melody is over
    assert!(!sp.enabled);
    assert_eq!(sp.tone_end_date, 0);
    assert!(sp.melody.is_none());
}

#[test]
fn ticks_advance_the_clock_by_ten_milliseconds() {
    let mut ticks: u64 = 0;
    let mut sp = SpeakerState::new();
    assert_eq!(timer::uptime(ticks), 0);
    for _ in 0..12 {
        timer::tick(&mut ticks, &mut sp);
    }
    assert_eq!(ticks, 12);
    assert_eq!(timer::uptime(ticks), 120);
}

#[test]
fn the_timer_vector_drives_the_clock() {
    let mut st = KernelState::new();
    let mut mem: Vec<u8> = Vec::new();
    let mut ctx = InterruptContext {
        edi: 0,
        esi: 0,
        ebp: 0,
        esp: 0,
        ebx: 0,
        edx: 0,
        ecx: 0,
        eax: 0,
        interrupt_number: 64,
        error_code: 0,
    };
    isr_generic_handler(&mut ctx, &mut st, &mut mem, None);
    isr_generic_handler(&mut ctx, &mut st, &mut mem, None);
    assert_eq!(st.ticks, 2);

    // the keyboard vector queues the scan code the controller yielded
    ctx.interrupt_number = 65;
    isr_generic_handler(&mut ctx, &mut st, &mut mem, Some(0x1C));
    assert_eq!(st.scans.read(), Some(0x1C));

    // an unknown vector changes nothing
    ctx.interrupt_number = 33;
    isr_generic_handler(&mut ctx, &mut st, &mut mem, None);
    assert_eq!(st.ticks, 2);
}

#[test]
fn color_codes_pack_background_and_foreground() {
    assert_eq!(ColorCode::new(Color::White, Color::Black).0, 0x0F);
    assert_eq!(ColorCode::new(Color::Black, Color::White).0, 0xF0);
    assert_eq!(ColorCode::new(Color::Yellow, Color::Blue).0, 0x1E);
    let cell = ScreenChar { ascii_character: b'K', color_code: ColorCode::new(Color::Green, Color::Black) };
    assert_eq!(cell.color_code.0, 2);
}

#[test]
fn strings_scan_their_terminator() {
    let bytes = b"name\0rest".to_vec();
    assert_eq!(strlen_at(&bytes, 0), 4);
    assert_eq!(cstr_at(&bytes, 0), b"name".to_vec());
    assert_eq!(cstr_at(&bytes, 5), b"rest".to_vec());
    assert_eq!(copy_range(&bytes, 1, 4), b"ame".to_vec());
    assert!(bytes_eq(&b"ab".to_vec(), &b"ab".to_vec()));
    assert!(!bytes_eq(&b"ab".to_vec(), &b"ac".to_vec()));
}

#[test]
fn memory_bounds_span_the_available_regions() {
    let regions = vec![
        MemRegion { base: 0, length: 0x9F000, available: true },
        MemRegion { base: 0xF0000, length: 0x10000, available: false },
        MemRegion { base: 0x100000, length: 0x700000, available: true },
    ];
    let (lo, hi) = memory_bounds(&regions, 0x200123).expect("usable memory exists");
    assert_eq!(lo, 0x200128); // the kernel's end, aligned up to eight
    assert_eq!(hi, 0x800000);
    assert_eq!(memory_bounds(&Vec::new(), 0), None);
}

#[test]
fn the_command_line_names_the_executable() {
    assert_eq!(executable_from_cmdline(&b"/init.elf".to_vec()), Some(b"init.elf".to_vec()));
    assert_eq!(executable_from_cmdline(&b"init.elf".to_vec()), None);
    assert_eq!(executable_from_cmdline(&Vec::new()), None);
}
