use ffmpeg_preset_core::command::{ParseCommand, ParseOptions};

#[test]
fn it_works() {
    let command = ParseCommand::build(ParseOptions {
        command: String::from("/usr/bin/bash"),
        bash_file: String::from("/path/to/ffmpeg/bin/low-video.bash"),
        gpu: false,
        resize: None,
        bitrate: None,
        files: vec![(String::from("video1.mp4"), None)],
    });

    assert_eq!(command.command, "/usr/bin/bash");
    assert_eq!(
        command.args_str(),
        "cd /path/to/ffmpeg/bin && low-video.bash video1.mp4"
    );
}

#[test]
fn it_works_with_gpu() {
    let command = ParseCommand::build(ParseOptions {
        command: String::from("/usr/bin/bash"),
        bash_file: String::from("/path/to/ffmpeg/bin/low-video.bash"),
        gpu: true,
        resize: None,
        bitrate: None,
        files: vec![(String::from("video1.mp4"), None)],
    });

    assert!(command.args_str().contains("--gpu"));
}

#[test]
fn it_works_with_files() {
    let command = ParseCommand::build(ParseOptions {
        command: String::from("/usr/bin/bash"),
        bash_file: String::from("/path/to/ffmpeg/bin/low-video.bash"),
        gpu: false,
        resize: None,
        bitrate: None,
        files: vec![
            (String::from("video1.mp4"), None),
            (String::from("video2.mp4"), None),
        ],
    });

    assert_eq!(
        command.args_str(),
        "cd /path/to/ffmpeg/bin && low-video.bash video1.mp4 video2.mp4"
    );
}

#[test]
fn it_works_with_files_with_escape_characters() {
    let command = ParseCommand::build(ParseOptions {
        command: String::from("/usr/bin/bash"),
        bash_file: String::from("/path/to/ffmpeg/bin/low-video.bash"),
        gpu: false,
        resize: None,
        bitrate: None,
        files: vec![
            (String::from("/path/with/a space/video1.mp4"), None),
            (String::from("C:\\path\\with\\a space\\video2.mp4"), None),
            (String::from("/path/to/video(3).mp4"), None),
            (String::from("C:\\path\\to\\video(4).mp4"), None),
            (
                String::from("/path/to/video5.mp4"),
                Some(String::from("/targ&et/video5.mp4")),
            ),
            (
                String::from("C:\\path\\to\\video6.mp4"),
                Some(String::from("C:\\targ&et\\video6.mp4")),
            ),
        ],
    });

    assert_eq!(
        command.args_str(),
        "cd /path/to/ffmpeg/bin && low-video.bash /path/with/a\\ space/video1.mp4 /c/path/with/a\\ space/video2.mp4 /path/to/video\\(3\\).mp4 /c/path/to/video\\(4\\).mp4 /path/to/video5.mp4:/targ\\&et/video5.mp4 /c/path/to/video6.mp4:/c/targ\\&et/video6.mp4"
    );
}

#[test]
fn it_works_with_files_with_target() {
    let command = ParseCommand::build(ParseOptions {
        command: String::from("/usr/bin/bash"),
        bash_file: String::from("/path/to/ffmpeg/bin/low-video.bash"),
        gpu: false,
        resize: None,
        bitrate: None,
        files: vec![
            (
                String::from("E:\\videos\\video1.mp4"),
                Some(String::from("E:\\videos-target\\")),
            ),
            (String::from("E:\\videos\\video2.mp4"), None),
        ],
    });

    assert_eq!(
        command.args_str(),
        "cd /path/to/ffmpeg/bin && low-video.bash /e/videos/video1.mp4:/e/videos-target/ /e/videos/video2.mp4"
    );
}

#[test]
fn it_works_with_resize() {
    let command = ParseCommand::build(ParseOptions {
        command: String::from("/usr/bin/bash"),
        bash_file: String::from("/path/to/ffmpeg/bin/low-video.bash"),
        gpu: false,
        resize: Some(String::from("1440:-1")),
        bitrate: None,
        files: vec![(String::from("video1.mp4"), None)],
    });

    assert_eq!(
        command.args_str(),
        "cd /path/to/ffmpeg/bin && low-video.bash --resize 1440:-1 video1.mp4"
    );
}

#[test]
fn it_works_with_bitrate() {
    let command = ParseCommand::build(ParseOptions {
        command: String::from("/usr/bin/bash"),
        bash_file: String::from("/path/to/ffmpeg/bin/low-video.bash"),
        gpu: false,
        resize: None,
        bitrate: Some(String::from("2M")),
        files: vec![(String::from("video1.mp4"), None)],
    });

    assert_eq!(
        command.args_str(),
        "cd /path/to/ffmpeg/bin && low-video.bash --bitrate 2M video1.mp4"
    );
}

#[test]
fn gpu_flag_stands_between_script_and_flags() {
    let command = ParseCommand::build(ParseOptions {
        command: String::from("/usr/bin/bash"),
        bash_file: String::from("/path/to/ffmpeg/bin/low-video.bash"),
        gpu: true,
        resize: Some(String::from("1440:-1")),
        bitrate: Some(String::from("2M")),
        files: vec![
            (String::from("a.mp4"), None),
            (String::from("b.mp4"), None),
        ],
    });

    assert_eq!(
        command.args_str(),
        "cd /path/to/ffmpeg/bin && low-video.bash --gpu --resize 1440:-1 --bitrate 2M a.mp4 b.mp4"
    );
}

#[test]
fn shell_args_wrap_the_joined_command_line() {
    let command = ParseCommand::build(ParseOptions {
        command: String::from("/usr/bin/bash"),
        bash_file: String::from("/path/to/ffmpeg/bin/low-video.bash"),
        gpu: false,
        resize: None,
        bitrate: None,
        files: vec![(String::from("video1.mp4"), None)],
    });

    let shell_args = command.shell_args();
    assert_eq!(shell_args.len(), 3);
    assert_eq!(shell_args[0], "--login");
    assert_eq!(shell_args[1], "-c");
    assert_eq!(
        shell_args[2],
        "cd /path/to/ffmpeg/bin && low-video.bash video1.mp4"
    );
}

#[test]
fn bare_script_name_gets_no_cd() {
    let command = ParseCommand::build(ParseOptions {
        command: String::from("/usr/bin/bash"),
        bash_file: String::from("run.bash"),
        gpu: false,
        resize: None,
        bitrate: None,
        files: vec![(String::from("video1.mp4"), None)],
    });

    assert_eq!(command.args_str(), "run.bash video1.mp4");
}

#[test]
fn trailing_separator_is_ignored_for_the_script_name() {
    let command = ParseCommand::build(ParseOptions {
        command: String::from("/usr/bin/bash"),
        bash_file: String::from("/path/to/ffmpeg/bin/"),
        gpu: false,
        resize: None,
        bitrate: None,
        files: vec![(String::from("video1.mp4"), None)],
    });

    assert_eq!(command.args_str(), "cd /path/to/ffmpeg && bin video1.mp4");
}
