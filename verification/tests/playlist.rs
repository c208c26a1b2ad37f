use gb_presenter::renderer::m3u_searcher::decode_playlist;
use gb_presenter::renderer::m3u_searcher::line_fields;
use gb_presenter::renderer::m3u_searcher::parse_duration;
use gb_presenter::renderer::m3u_searcher::parse_index;
use gb_presenter::renderer::m3u_searcher::parse_line;
use gb_presenter::renderer::m3u_searcher::parse_playlist;
use gb_presenter::renderer::m3u_searcher::split_text;
use gb_presenter::renderer::m3u_searcher::text_from;
use gb_presenter::renderer::m3u_searcher::IndexError;
use gb_presenter::renderer::m3u_searcher::Line;
use gb_presenter::renderer::m3u_searcher::TrackEntry;

fn track(index: u8, title: &str, duration: Option<u64>) -> TrackEntry {
    TrackEntry { index, title: title.to_string(), duration }
}

fn fields(line: &str) -> Vec<String> {
    line_fields(line)
}

#[test]
fn playlist_names_tracks() {
    let text = "# A comment\n\nalbum.gbs::GBS,1,First song,1:30\r\nalbum.gbs::GBS,2,Second song,0:45,,\nother.gbs::GBS,3,Not ours,2:00\nalbum.gbs::GBS,4,No length\n";
    assert_eq!(
        parse_playlist(text, "album.gbs"),
        Ok(vec![
            track(1, "First song", Some(90)),
            track(2, "Second song", Some(45)),
            track(4, "No length", None),
        ])
    );
}

#[test]
fn file_names_match_without_case() {
    let text = "ALBUM.GBS::gbs,1,One\nAlbum.Gbs::GBS,2,Two\nalbum.gbs::GB,3,Three\nalbum.gbs,4,Four";
    assert_eq!(
        parse_playlist(text, "album.GBS"),
        Ok(vec![track(1, "One", None), track(2, "Two", None)])
    );
    // The wrapper around the standard library turns every letter small.
    assert_eq!(
        parse_playlist("\u{c4}LBUM.GBS::GBS,1,One", "\u{e4}lbum.gbs"),
        Ok(vec![track(1, "One", None)])
    );
}

#[test]
fn bad_track_number_aborts() {
    let text = "album.gbs::GBS,1,One\nalbum.gbs::GBS,x,Two\nalbum.gbs::GBS,3,Three";
    assert_eq!(parse_playlist(text, "album.gbs"), Err(IndexError::InvalidDigit));
    assert_eq!(parse_playlist("album.gbs::GBS", "album.gbs"), Err(IndexError::Empty));
    assert_eq!(parse_playlist("album.gbs::GBS,256,x", "album.gbs"), Err(IndexError::TooLarge));
    // A line about another file is not read that far.
    assert_eq!(parse_playlist("other.gbs::GBS,x,Two", "album.gbs"), Ok(vec![]));
    // The number is read before the title is looked at.
    assert_eq!(parse_playlist("album.gbs::GBS,x,", "album.gbs"), Err(IndexError::InvalidDigit));
    assert_eq!(parse_playlist("album.gbs::GBS,7,", "album.gbs"), Ok(vec![]));
}

#[test]
fn long_titles_are_cut() {
    let sixty = "x".repeat(60);
    let sixty_one = "\u{e9}".repeat(61);
    let text = format!("a::GBS,1,{}\na::GBS,2,{}", sixty, sixty_one);
    let tracks = parse_playlist(&text, "a").unwrap();
    assert_eq!(tracks[0].title, sixty);
    assert_eq!(tracks[1].title, format!("{}...", "\u{e9}".repeat(57)));
}

#[test]
fn carriage_return_goes_with_line_feed() {
    // The last line has no line feed, so its carriage return stays.
    let tracks = parse_playlist("a::GBS,1,One\r\na::GBS,2,Two\r", "a").unwrap();
    assert_eq!(tracks, vec![track(1, "One", None), track(2, "Two\r", None)]);
    // A carriage return alone makes no empty line.
    assert_eq!(parse_playlist("\r\n#\r\n", "a"), Ok(vec![]));
}

#[test]
fn commas_can_be_escaped() {
    assert_eq!(fields("a,b,c"), vec!["a", "b", "c"]);
    assert_eq!(fields(""), vec![""]);
    assert_eq!(fields(",,"), vec!["", "", ""]);
    assert_eq!(fields("a\\,b,c"), vec!["a,b", "c"]);
    assert_eq!(fields("a\\,b\\,c"), vec!["a,b,c"]);
    // Two backslashes stand for one, which escapes nothing by itself...
    assert_eq!(fields("a\\\\b,c"), vec!["a\\b", "c"]);
    // ...but at the end of a field the one that is left takes the comma.
    assert_eq!(fields("a\\\\,b"), vec!["a,b"]);
    assert_eq!(fields("a\\\\\\\\,b"), vec!["a\\\\", "b"]);
    // Three backslashes leave two, which take no comma.
    assert_eq!(fields("a\\\\\\,b"), vec!["a\\\\", "b"]);
    assert_eq!(fields("\\"), vec!["\\"]);
    assert_eq!(fields("\\,"), vec![","]);
}

#[test]
fn escaped_title_in_a_line() {
    assert_eq!(
        parse_playlist("a::GBS,5,Hello\\, world,1:00", "a"),
        Ok(vec![track(5, "Hello, world", Some(60))])
    );
}

#[test]
fn track_numbers() {
    assert_eq!(parse_index(b"0"), Ok(0));
    assert_eq!(parse_index(b"255"), Ok(255));
    assert_eq!(parse_index(b"+7"), Ok(7));
    assert_eq!(parse_index(b"007"), Ok(7));
    assert_eq!(parse_index(b"0000000255"), Ok(255));
    assert_eq!(parse_index(b""), Err(IndexError::Empty));
    assert_eq!(parse_index(b"+"), Err(IndexError::InvalidDigit));
    assert_eq!(parse_index(b"-"), Err(IndexError::InvalidDigit));
    assert_eq!(parse_index(b"-1"), Err(IndexError::InvalidDigit));
    assert_eq!(parse_index(b"++1"), Err(IndexError::InvalidDigit));
    assert_eq!(parse_index(b" 1"), Err(IndexError::InvalidDigit));
    assert_eq!(parse_index(b"256"), Err(IndexError::TooLarge));
    assert_eq!(parse_index(b"260"), Err(IndexError::TooLarge));
    assert_eq!(parse_index(b"1000"), Err(IndexError::TooLarge));
    // The first character that cannot stand decides.
    assert_eq!(parse_index(b"25x"), Err(IndexError::InvalidDigit));
    assert_eq!(parse_index(b"999x"), Err(IndexError::TooLarge));
    assert_eq!(parse_index(b"9x99"), Err(IndexError::InvalidDigit));
    for s in ["", "+", "-", "12", "255", "256", "999x", "25x", "+0", "0255", "٣"] {
        let ours = parse_index(s.as_bytes()).ok();
        assert_eq!(ours, s.parse::<u8>().ok(), "for {:?}", s);
    }
}

#[test]
fn lengths() {
    assert_eq!(parse_duration(b""), 0);
    assert_eq!(parse_duration(b"45"), 45);
    assert_eq!(parse_duration(b"1:30"), 90);
    assert_eq!(parse_duration(b"1:02:03"), 3723);
    assert_eq!(parse_duration(b"1:xx"), 60);
    assert_eq!(parse_duration(b"x:30"), 30);
    assert_eq!(parse_duration(b":"), 0);
    assert_eq!(parse_duration(b"+2:+3"), 123);
    assert_eq!(parse_duration(b"18446744073709551615"), u64::MAX);
    assert_eq!(parse_duration(b"18446744073709551615:0"), u64::MAX.wrapping_mul(60));
    assert_eq!(parse_duration(b"18446744073709551616"), 0);
}

#[test]
fn texts_are_split() {
    assert_eq!(split_text("a\nb\n", '\n'), vec!["a", "b", ""]);
    assert_eq!(split_text("", '\n'), vec![""]);
    assert_eq!(split_text("\u{e9}\u{e9}:\u{4e2d}", ':'), vec!["\u{e9}\u{e9}", "\u{4e2d}"]);
}

#[test]
fn lines_are_read() {
    let wanted = "a.gbs::gbs".to_string();
    assert!(matches!(parse_line("", &wanted), Line::Skip));
    assert!(matches!(parse_line("#a.gbs::GBS,1,x", &wanted), Line::Skip));
    assert!(matches!(parse_line("b.gbs::GBS,1,x", &wanted), Line::Skip));
    assert!(matches!(parse_line("a.gbs::GBS,,x", &wanted), Line::BadIndex(IndexError::Empty)));
    match parse_line("A.GBS::GBS,12,Title,", &wanted) {
        Line::Track(entry) => assert_eq!(entry, track(12, "Title", None)),
        _ => panic!("no track"),
    }
}

#[test]
fn playlists_are_decoded() {
    assert_eq!(decode_playlist(b"plain"), Ok("plain".to_string()));
    // Every byte is a character of Windows-1252.
    assert_eq!(decode_playlist(&[0x63, 0x61, 0x66, 0xE9]), Ok("caf\u{e9}".to_string()));
    assert_eq!(decode_playlist(&[0x80]), Ok("\u{20ac}".to_string()));
    assert_eq!(decode_playlist(&[0x83, 0x65]), Ok("\u{192}e".to_string()));
    assert_eq!(decode_playlist(b""), Ok(String::new()));
}

#[test]
fn decoders_are_tried_in_order() {
    assert_eq!(text_from(b"x", Some("w".to_string()), Some("j".to_string())), Ok("w".to_string()));
    assert_eq!(text_from(b"x", None, Some("j".to_string())), Ok("j".to_string()));
    assert_eq!(text_from(b"x", None, None), Ok("x".to_string()));
    assert_eq!(
        text_from(&[0xFF], None, None),
        Err(std::str::from_utf8(&[0xFF]).unwrap_err().to_string())
    );
}
