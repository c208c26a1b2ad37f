use gb_presenter::renderer::vgm::converter::build_gbs;
use gb_presenter::renderer::vgm::converter::calculate_tma_modulo;
use gb_presenter::renderer::vgm::converter::metadata_string;
use gb_presenter::renderer::vgm::converter::samples_to_frames;
use gb_presenter::renderer::vgm::converter::samples_to_frames_inverse;
use gb_presenter::renderer::vgm::converter::timer_bytes;
use gb_presenter::renderer::vgm::converter::vgm_to_engine_format;
use gb_presenter::renderer::vgm::converter::vgm_to_gbs;
use gb_presenter::renderer::vgm::converter::wait_is_inexact;
use gb_presenter::renderer::vgm::converter::TranscodeError;
use gb_presenter::renderer::vgm::duration_frames;
use gb_presenter::renderer::vgm::Vgm;

fn put_u32(image: &mut Vec<u8>, at: usize, value: u32) {
    image[at..at + 4].copy_from_slice(&value.to_le_bytes());
}

/// A log with a 0xC0-byte header, the given clock field and commands, and
/// the loop point `loop_at` bytes into the commands.
fn log(clock: u32, commands: &[u8], loop_at: Option<usize>, samples: u32, loop_samples: u32) -> Vec<u8> {
    let mut image = vec![0u8; 0xC0];
    image[0..4].copy_from_slice(b"Vgm ");
    put_u32(&mut image, 0x8, 0x161);
    put_u32(&mut image, 0x18, samples);
    put_u32(&mut image, 0x20, loop_samples);
    put_u32(&mut image, 0x34, 0xC0 - 0x34);
    put_u32(&mut image, 0x80, clock);
    if let Some(at) = loop_at {
        put_u32(&mut image, 0x1C, (0xC0 + at - 0x1C) as u32);
    }
    image.extend_from_slice(commands);
    let end = image.len() as u32;
    put_u32(&mut image, 0x4, end - 4);
    image
}

fn driver() -> Vec<u8> {
    (0..0x4000usize).map(|i| (i % 251) as u8).collect()
}

#[test]
fn whole_frames_at_sixty() {
    assert_eq!(samples_to_frames(735, 60), 1);
    assert_eq!(samples_to_frames(0, 60), 0);
    assert_eq!(samples_to_frames(44100, 60), 60);
    assert_eq!(samples_to_frames(882, 50), 1);
}

#[test]
fn frames_round_to_nearest() {
    assert_eq!(samples_to_frames(367, 60), 0);
    assert_eq!(samples_to_frames(368, 60), 1);
    assert_eq!(samples_to_frames(1102, 60), 1);
    assert_eq!(samples_to_frames(1103, 60), 2);
}

#[test]
fn frames_saturate() {
    assert_eq!(samples_to_frames(u32::MAX, u32::MAX), u32::MAX);
}

#[test]
fn exact_multiples_do_not_drift() {
    for frames in [0u32, 1, 2, 59, 60, 61, 1000, 100_000] {
        for rate in [50u32, 60, 100, 44100, 1] {
            if let Some(samples) = samples_to_frames_inverse(frames, rate) {
                assert_eq!(samples_to_frames(samples, rate), frames);
            }
        }
    }
    assert_eq!(samples_to_frames_inverse(3, 60), Some(2205));
    assert_eq!(samples_to_frames_inverse(1, 7), Some(6300));
    assert_eq!(samples_to_frames_inverse(1, 0), None);
    assert_eq!(samples_to_frames_inverse(1, 44101), None);
}

#[test]
fn inexact_waits_are_told() {
    assert!(!wait_is_inexact(735, 60, 98));
    assert!(wait_is_inexact(736, 60, 98));
    assert!(wait_is_inexact(1000, 60, 98));
    assert!(!wait_is_inexact(734, 60, 98));
    assert!(wait_is_inexact(734, 60, 100));
}

#[test]
fn timer_modulo() {
    assert_eq!(calculate_tma_modulo(4096, 60), 0xFF - 68);
    assert_eq!(calculate_tma_modulo(4096, 50), 0xFF - 82);
    assert_eq!(calculate_tma_modulo(4096, 4096), 0xFE);
    assert_eq!(calculate_tma_modulo(3, 2), 0xFF - 2);
    assert_eq!(calculate_tma_modulo(4096, 0), 0xFF - i32::MAX);
    assert_eq!(calculate_tma_modulo(0, 0), 0xFF);
}

#[test]
fn timer_settings_for_rates() {
    assert_eq!(timer_bytes(60, 0), (0, 0));
    assert_eq!(timer_bytes(60, -1), (0xFF, 0));
    assert_eq!(timer_bytes(60, 0x101), (1, 0));
    assert_eq!(timer_bytes(50, 0), (0xFF - 82, 4));
    assert_eq!(timer_bytes(50, 3), (0xFF - 82 + 3, 4));
    assert_eq!(timer_bytes(50, -200), (((0xFF - 82 - 200i32) & 0xFF) as u8, 4));
}

#[test]
fn dual_unit_writes_are_redirected() {
    let commands = [0xB3, 0x00, 1, 0xB3, 0x80, 2, 0xB3, 0x01, 3, 0x66];
    let vgm = Vgm::new(&log(0x4040_0000, &commands, None, 0, 0)).unwrap();
    let first = vgm_to_engine_format(&vgm, false, 60).unwrap();
    assert_eq!(first.banks, vec![vec![0x10, 1, 0x50, 1, 0x11, 3, 0xD0]]);
    assert_eq!(first.loop_data, None);
    let second = vgm_to_engine_format(&vgm, true, 60).unwrap();
    assert_eq!(second.banks, vec![vec![0x50, 1, 0x10, 2, 0x50, 1, 0xD0]]);
}

#[test]
fn second_chip_write_needs_dual_log() {
    let commands = [0xB3, 0x80, 2, 0x66];
    let vgm = Vgm::new(&log(0x0040_0000, &commands, None, 0, 0)).unwrap();
    assert_eq!(
        vgm_to_engine_format(&vgm, false, 60).err(),
        Some(TranscodeError::SecondChipWrite)
    );
}

#[test]
fn unknown_command_aborts() {
    let commands = [0x62, 0x4F, 0x62, 0x66];
    let vgm = Vgm::new(&log(0x0040_0000, &commands, None, 0, 0)).unwrap();
    assert_eq!(
        vgm_to_engine_format(&vgm, false, 60).err(),
        Some(TranscodeError::UnsupportedCommand(0x4F))
    );
    assert_eq!(
        vgm_to_gbs(&vgm, false, 60, 0, &driver()).err(),
        Some(TranscodeError::UnsupportedCommand(0x4F))
    );
}

#[test]
fn truncated_command_aborts() {
    let commands = [0x62, 0x61, 0x10];
    let vgm = Vgm::new(&log(0x0040_0000, &commands, None, 0, 0)).unwrap();
    assert_eq!(
        vgm_to_engine_format(&vgm, false, 60).err(),
        Some(TranscodeError::TruncatedCommand)
    );
}

#[test]
fn waits_are_split() {
    // 65535 samples at 240 frames a second are 357 frames: 255 and 102.
    let commands = [0x61, 0xFF, 0xFF, 0x70, 0x66];
    let vgm = Vgm::new(&log(0x0040_0000, &commands, None, 0, 0)).unwrap();
    let data = vgm_to_engine_format(&vgm, false, 240).unwrap();
    assert_eq!(data.banks, vec![vec![0x80, 0xFF, 0x80, 102, 0x80, 0, 0xD0]]);
    // 510 frames are two waits of 255.
    let commands = [0x61, 0xE6, 0x6D, 0x61, 0xE6, 0x6D, 0x61, 0xE6, 0x6D, 0x66];
    let vgm = Vgm::new(&log(0x0040_0000, &commands, None, 0, 0)).unwrap();
    assert_eq!(samples_to_frames(0x6DE6, 800), 510);
    let data = vgm_to_engine_format(&vgm, false, 800).unwrap();
    assert_eq!(
        data.banks,
        vec![vec![0x80, 0xFF, 0x80, 0xFF, 0x80, 0xFF, 0x80, 0xFF, 0x80, 0xFF, 0x80, 0xFF, 0xD0]]
    );
}

#[test]
fn data_block_keeps_first_byte() {
    let commands = [0x67, 0x66, 0x05, 3, 0, 0, 0, 0xAA, 0xBB, 0xCC, 0x62, 0x66];
    let vgm = Vgm::new(&log(0x0040_0000, &commands, None, 0, 0)).unwrap();
    let data = vgm_to_engine_format(&vgm, false, 60).unwrap();
    assert_eq!(data.banks, vec![vec![0xB0, 0x80, 0xAA, 0x80, 1, 0xD0]]);
    let commands = [0x67, 0x66, 0x05, 0, 0, 0, 0, 0x66];
    let vgm = Vgm::new(&log(0x0040_0000, &commands, None, 0, 0)).unwrap();
    assert_eq!(
        vgm_to_engine_format(&vgm, false, 60).err(),
        Some(TranscodeError::EmptyDataBlock)
    );
}

#[test]
fn loop_target_is_behind_the_marker() {
    let commands = [0xB3, 0x00, 1, 0x62, 0xB3, 0x01, 3, 0x62, 0x66];
    let vgm = Vgm::new(&log(0x0040_0000, &commands, Some(4), 1470, 735)).unwrap();
    let data = vgm_to_engine_format(&vgm, false, 60).unwrap();
    assert_eq!(data.banks, vec![vec![0x10, 1, 0x80, 1, 0x11, 3, 0x80, 1, 0xC0]]);
    assert_eq!(data.loop_data, Some((1, 0x4004)));
    let (bank, addr) = data.loop_data.unwrap();
    assert_eq!(&data.banks[bank - 1][addr - 0x4000..addr - 0x4000 + 2], &[0x11, 3]);
}

#[test]
fn loop_marker_at_the_end() {
    let commands = [0x62, 0x62];
    let vgm = Vgm::new(&log(0x0040_0000, &commands, Some(2), 1470, 0)).unwrap();
    // The end offset is reached before the loop point is looked at.
    let data = vgm_to_engine_format(&vgm, false, 60).unwrap();
    assert_eq!(data.banks, vec![vec![0x80, 1, 0x80, 1, 0xD0]]);
    assert_eq!(data.loop_data, None);
}

#[test]
fn banks_are_sealed_at_capacity() {
    let mut commands = Vec::new();
    for i in 0..10000u32 {
        commands.extend_from_slice(&[0xB3, (i % 0x30) as u8, (i % 256) as u8]);
    }
    commands.push(0x66);
    let vgm = Vgm::new(&log(0x0040_0000, &commands, Some(3 * 8190), 0, 0)).unwrap();
    let data = vgm_to_engine_format(&vgm, false, 60).unwrap();
    assert_eq!(data.banks.len(), 2);
    assert_eq!(data.banks[0].len(), 0x3FFC + 1);
    assert_eq!(data.banks[0][0x3FFC], 0xA0);
    assert_eq!(data.banks[1].len(), 2 * (10000 - 8190) + 1);
    assert_eq!(*data.banks[1].last().unwrap(), 0xC0);
    // The command behind the marker is the first of the second bank.
    assert_eq!(data.loop_data, Some((2, 0x4000)));
    assert_eq!(data.banks[1][0], 0x10 + (8190 % 0x30) as u8);
    for bank in &data.banks {
        assert!(bank.len() <= 0x3FFC + 1);
    }
}

#[test]
fn three_byte_instruction_seals_early() {
    let mut commands = Vec::new();
    for _ in 0..8189u32 {
        commands.extend_from_slice(&[0xB3, 0x00, 0x01]);
    }
    // 0x3FFA bytes are written; a data block does not fit any more.
    commands.extend_from_slice(&[0x67, 0x66, 0x00, 1, 0, 0, 0, 0x77]);
    commands.push(0x66);
    let vgm = Vgm::new(&log(0x0040_0000, &commands, None, 0, 0)).unwrap();
    let data = vgm_to_engine_format(&vgm, false, 60).unwrap();
    assert_eq!(data.banks.len(), 2);
    assert_eq!(data.banks[0].len(), 0x3FFA + 1);
    assert_eq!(data.banks[0][0x3FFA], 0xA0);
    assert_eq!(data.banks[1], vec![0xB0, 0x80, 0x77, 0xD0]);
}

#[test]
fn song_file_layout() {
    let commands = [0xB3, 0x00, 1, 0x62, 0xB3, 0x01, 3, 0x62, 0x66];
    let vgm = Vgm::new(&log(0x0040_0000, &commands, Some(4), 1470, 735)).unwrap();
    let rom = driver();
    let file = vgm_to_gbs(&vgm, false, 50, 2, &rom).unwrap();
    assert_eq!(file.len(), 0x70 + 0x4000 + 2 * 0x4000 - 0x3EF0);
    assert_eq!(
        &file[0..0x10],
        &[
            b'G', b'B', b'S', 1, 1, 1, 0xF0, 0x3E, 0xF0, 0x3E, 0x26, 0x3F, 0xFE, 0xFF,
            0xFF - 82 + 2, 4
        ]
    );
    for field in 0..3 {
        let at = 0x10 + field * 0x20;
        assert_eq!(&file[at..at + 3], b"<?>");
        assert!(file[at + 3..at + 0x20].iter().all(|&b| b == 0));
    }
    // The driver from the load address up to the timer bytes.
    assert_eq!(&file[0x70..0x70 + 0x10A], &rom[0x3EF0..0x3FFA]);
    let tail = 0x70 + 0x3FFA - 0x3EF0;
    assert_eq!(&file[tail..tail + 6], &[0xFF - 82 + 2, 4, 0x04, 0x40, 0x01, 0x00]);
    let bank = 0x70 + 0x4000 - 0x3EF0;
    assert_eq!(&file[bank..bank + 9], &[0x10, 1, 0x80, 1, 0x11, 3, 0x80, 1, 0xC0]);
    assert!(file[bank + 9..].iter().all(|&b| b == 0));
}

#[test]
fn song_file_without_loop_keeps_driver_bytes() {
    let commands = [0x62, 0x66];
    let vgm = Vgm::new(&log(0x0040_0000, &commands, None, 735, 0)).unwrap();
    let rom = driver();
    let file = vgm_to_gbs(&vgm, false, 60, 0, &rom).unwrap();
    let tail = 0x70 + 0x3FFA - 0x3EF0;
    assert_eq!(&file[tail..tail + 2], &[0, 0]);
    assert_eq!(&file[tail + 2..tail + 6], &rom[0x3FFC..0x4000]);
}

#[test]
fn short_driver_is_refused() {
    let commands = [0x62, 0x66];
    let vgm = Vgm::new(&log(0x0040_0000, &commands, None, 735, 0)).unwrap();
    assert_eq!(
        vgm_to_gbs(&vgm, false, 60, 0, &[0u8; 0x3FFF]).err(),
        Some(TranscodeError::DriverTooShort)
    );
}

#[test]
fn duration_counts_loops() {
    let commands = [0x62, 0x66];
    let vgm = Vgm::new(&log(0x0040_0000, &commands, None, 44100 * 3, 44100)).unwrap();
    assert_eq!(duration_frames(&vgm, 60, 0), 120);
    assert_eq!(duration_frames(&vgm, 60, 2), 240);
    assert_eq!(duration_frames(&vgm, 50, 3), 250);
}

#[test]
fn song_file_carries_metadata() {
    let commands = [0x62, 0x66];
    let mut image = log(0x0040_0000, &commands, None, 735, 0);
    let at = image.len();
    let mut table = Vec::new();
    for s in ["Song", "", "Cartridge", "", "", "", "Somebody with a very long name, longer than the field", "", "", "", ""] {
        for unit in s.encode_utf16() {
            table.extend_from_slice(&unit.to_le_bytes());
        }
        table.extend_from_slice(&[0, 0]);
    }
    image.extend_from_slice(b"Gd3 ");
    image.extend_from_slice(&0x100u32.to_le_bytes());
    image.extend_from_slice(&(table.len() as u32).to_le_bytes());
    image.extend_from_slice(&table);
    put_u32(&mut image, 0x14, (at - 0x14) as u32);
    let vgm = Vgm::new(&image).unwrap();
    let file = vgm_to_gbs(&vgm, false, 60, 0, &driver()).unwrap();
    assert_eq!(&file[0x10..0x14], b"Song");
    assert!(file[0x14..0x30].iter().all(|&b| b == 0));
    assert_eq!(&file[0x30..0x50], &b"Somebody with a very long name, longer than the field"[..0x20]);
    assert_eq!(&file[0x50..0x59], b"Cartridge");
    assert!(file[0x59..0x70].iter().all(|&b| b == 0));
}

#[test]
fn metadata_strings_are_thirty_two_bytes() {
    let mut expected = b"Title".to_vec();
    expected.resize(0x20, 0);
    assert_eq!(metadata_string("Title"), expected);
    assert_eq!(metadata_string(""), vec![0u8; 0x20]);
    let long = "0123456789abcdefghijklmnopqrstuvwxyz";
    assert_eq!(metadata_string(long), long.as_bytes()[..0x20].to_vec());
    // A character may be cut in two.
    let accents = "\u{e9}".repeat(17);
    assert_eq!(metadata_string(&accents), accents.as_bytes()[..0x20].to_vec());
}

#[test]
fn song_file_from_a_program() {
    let commands = [0xB3, 0x00, 1, 0x66];
    let vgm = Vgm::new(&log(0x0040_0000, &commands, None, 0, 0)).unwrap();
    let engine = vgm_to_engine_format(&vgm, false, 60).unwrap();
    // A driver of two banks: the program lies over its second bank.
    let rom: Vec<u8> = (0..0x8000usize).map(|i| (i % 7) as u8 + 1).collect();
    let file = build_gbs(&rom, &engine, 9, 8, b"T", b"A", b"G").unwrap();
    assert_eq!(file.len(), 0x70 + 0x8000 + 2 * 0x4000 - 0x3EF0);
    assert_eq!(&file[14..16], &[9, 8]);
    assert_eq!(file[0x10], b'T');
    assert_eq!(file[0x30], b'A');
    assert_eq!(file[0x50], b'G');
    let bank = 0x70 + 0x4000 - 0x3EF0;
    assert_eq!(&file[bank..bank + 3], &[0x10, 1, 0xD0]);
    assert_eq!(&file[bank + 3..bank + 0x4000], &rom[0x4003..0x8000]);
    assert!(file[bank + 0x4000..].iter().all(|&b| b == 0));
    assert_eq!(
        build_gbs(&rom[..100], &engine, 9, 8, b"T", b"A", b"G").err(),
        Some(TranscodeError::DriverTooShort)
    );
}
