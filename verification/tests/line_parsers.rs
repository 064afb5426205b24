use ffmpeg_preset_core::events::Summary;
use ffmpeg_preset_core::time::time_str_to_milliseconds;
use ffmpeg_preset_core::parse::{
    try_converting_line, try_duration_line, try_percent_line, try_summary_line, ConvertStatusLine,
};

#[test]
fn try_duration_line_works() {
    assert_eq!(
        try_duration_line("frame=87506 fps=313 q=20.0 size=  558592kB time=00:48:36.98 bitrate=1568.7kbits/s speed=10.5x    \r"),
        None
    );
    assert_eq!(
        try_duration_line(" Duration: 00:31:32.22, start: 1.501000, bitrate: 11441 kb/s"),
        Some(189_2220)
    );
    assert_eq!(
        try_duration_line(" Duration: 00:00:01.505, start: 1.501000, bitrate: 11441 kb/s"),
        Some(1505)
    );
}

#[test]
fn try_percent_line_works() {
    assert_eq!(
        try_percent_line("frame=87506 fps=313 q=20.0 size=  558592kB time=00:48:36.98 bitrate=1568.7kbits/s speed=10.5x    \r"),
        Some(291_6980)
    );
    assert_eq!(
        try_percent_line(" Duration: 00:31:32.22, start: 1.501000, bitrate: 11441 kb/s"),
        None
    );
    assert_eq!(
        try_percent_line(" Duration: 00:00:01.505, start: 1.501000, bitrate: 11441 kb/s"),
        None
    );
}

#[test]
fn try_converting_line_works() {
    assert_eq!(
        try_converting_line("Converting /path/to/video.mp4 ===> /path/to/target.mp4"),
        Some(ConvertStatusLine::Started((
            "/path/to/video.mp4",
            "/path/to/target.mp4"
        ))),
    );
    assert_eq!(
        try_converting_line("Converting /path/t\\ o/video.mp4 ===> /path/t\\ o/target.mp4"),
        Some(ConvertStatusLine::Started((
            "/path/t\\ o/video.mp4",
            "/path/t\\ o/target.mp4"
        ))),
    );
    assert_eq!(
        try_converting_line("Converting success: /path/to/video.mp4 ===> /path/to/target.mp4"),
        Some(ConvertStatusLine::Started((
            "/path/to/video.mp4",
            "/path/to/target.mp4"
        ))),
    );
    assert_eq!(
        try_converting_line("Converted success: /path/to/video.mp4 ===> /path/to/target.mp4"),
        Some(ConvertStatusLine::Succeed((
            "/path/to/video.mp4",
            "/path/to/target.mp4"
        ))),
    );
    assert_eq!(
        try_converting_line("Converted failed: /path/to/video.mp4 ===> /path/to/target.mp4"),
        Some(ConvertStatusLine::Failed((
            "/path/to/video.mp4",
            "/path/to/target.mp4"
        ))),
    );
    assert_eq!(
        try_converting_line("frame=87506 fps=313 q=20.0 size=  558592kB time=00:48:36.98 bitrate=1568.7kbits/s speed=10.5x    \r"),
        None
    );
    assert_eq!(
        try_converting_line(" Duration: 00:31:32.22, start: 1.501000, bitrate: 11441 kb/s"),
        None
    );
    assert_eq!(
        try_converting_line(" Duration: 00:00:01.505, start: 1.501000, bitrate: 11441 kb/s"),
        None
    );
}

#[test]
fn try_summary_line_works() {
    assert_eq!(
        try_summary_line("Input: /path/to/video.mp4, Size: 2114.96 MB  ===> Output: /path/to/video.low.mp4, Size: 669.21 MB, 1445.75 MB smaller than origin\n"),
        Some(Summary {
            source: String::from("/path/to/video.mp4"),
            source_size: String::from("2114.96 MB"),
            target: String::from("/path/to/video.low.mp4"),
            target_size: String::from("669.21 MB"),
            reduce_size: String::from("1445.75 MB"),
        })
    );
    assert_eq!(
        try_summary_line("Converting /path/to/video.mp4 ===> /path/to/target.mp4"),
        None
    );
    assert_eq!(
        try_summary_line("Converting /path/t\\ o/video.mp4 ===> /path/t\\ o/target.mp4"),
        None
    );
    assert_eq!(
        try_summary_line("Converting success: /path/to/video.mp4 ===> /path/to/target.mp4"),
        None
    );
    assert_eq!(
        try_summary_line("Converted success: /path/to/video.mp4 ===> /path/to/target.mp4"),
        None
    );
    assert_eq!(
        try_summary_line("Converted failed: /path/to/video.mp4 ===> /path/to/target.mp4"),
        None
    );
    assert_eq!(
        try_summary_line("frame=87506 fps=313 q=20.0 size=  558592kB time=00:48:36.98 bitrate=1568.7kbits/s speed=10.5x    \r"),
        None
    );
    assert_eq!(
        try_summary_line(" Duration: 00:31:32.22, start: 1.501000, bitrate: 11441 kb/s"),
        None
    );
    assert_eq!(
        try_summary_line(" Duration: 00:00:01.505, start: 1.501000, bitrate: 11441 kb/s"),
        None
    );
}

#[test]
fn summary_round_trips_assembled_lines() {
    let line = "Input: clip one.mkv, Size: 12.5 MB ===> Output: clip one.small.mkv, Size: 3.5 MB, 9.0 MB smaller than origin";
    assert_eq!(
        try_summary_line(line),
        Some(Summary {
            source: String::from("clip one.mkv"),
            source_size: String::from("12.5 MB"),
            target: String::from("clip one.small.mkv"),
            target_size: String::from("3.5 MB"),
            reduce_size: String::from("9.0 MB"),
        })
    );
}

#[test]
fn duration_parsing_edges() {
    assert_eq!(time_str_to_milliseconds("00:00:01.505"), Some(1505));
    assert_eq!(time_str_to_milliseconds("00:31:32.22"), Some(1_892_220));
    assert_eq!(time_str_to_milliseconds("23:59:59.9999"), Some(86_399_999));
    assert_eq!(time_str_to_milliseconds("00:00:00"), Some(0));
    assert_eq!(time_str_to_milliseconds("00:00:00.5"), Some(500));
    assert_eq!(time_str_to_milliseconds("24:00:00"), None);
    assert_eq!(time_str_to_milliseconds("00:60:00"), None);
    assert_eq!(time_str_to_milliseconds("0:00:00"), None);
    assert_eq!(time_str_to_milliseconds("00:00:01."), None);
    assert_eq!(time_str_to_milliseconds("garbage"), None);
    assert_eq!(time_str_to_milliseconds(""), None);
}

#[test]
fn converted_without_result_word_classifies_as_none() {
    assert_eq!(try_converting_line("Converted a ===> b"), None);
    assert_eq!(try_converting_line("Converted done: a ===> b"), None);
    assert_eq!(try_converting_line("nothing to see here"), None);
}

#[test]
fn converting_line_keeps_colon_bearing_paths() {
    assert_eq!(
        try_converting_line("Converting C:\\src.mp4 ===> D:\\out.mp4"),
        Some(ConvertStatusLine::Started(("C:\\src.mp4", "D:\\out.mp4")))
    );
    assert_eq!(
        try_converting_line("Converted success: C:\\a.mp4 ===> D:\\b.mp4"),
        Some(ConvertStatusLine::Succeed(("C:\\a.mp4", "D:\\b.mp4")))
    );
    assert_eq!(
        try_converting_line("Converting x: ===> y"),
        Some(ConvertStatusLine::Started(("x:", "y")))
    );
}
