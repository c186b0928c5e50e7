use workshop_manager::command::{
    command_of_words, parse_command, parse_download_args, split_words, Command, DownloadArgs,
};

fn words(list: &[&str]) -> Vec<String> {
    list.iter().map(|w| w.to_string()).collect()
}

fn fetch(id: &str, force: bool) -> Command {
    Command::Download(DownloadArgs::Fetch { id: id.to_string(), force })
}

#[test]
fn words_are_the_runs_between_white_space() {
    for line in [
        "",
        " ",
        "download 100",
        "  download   100  ",
        "\tlist\t-v\n",
        "a",
        " a",
        "a ",
        "remove\u{a0}100\u{2003}x",
        "one\u{3000}two \u{85} three\r\n",
        "d\u{e9}j\u{e0} vu",
    ] {
        let expected: Vec<String> = line.split_whitespace().map(|w| w.to_string()).collect();
        assert_eq!(split_words(line), expected, "{:?}", line);
    }
}

#[test]
fn a_blank_line_is_no_command() {
    assert_eq!(parse_command(""), Command::Empty);
    assert_eq!(parse_command("   \t "), Command::Empty);
    assert_eq!(command_of_words(&vec![]), Command::Empty);
}

#[test]
fn commands_are_known_in_capitals_too() {
    assert_eq!(parse_command("info"), Command::Info);
    assert_eq!(parse_command("  INFO  "), Command::Info);
    assert_eq!(parse_command("Help"), Command::Help);
    assert_eq!(parse_command("exit"), Command::Exit);
    assert_eq!(parse_command("QUIT now"), Command::Exit);
    assert_eq!(parse_command("\u{130}nfo"), Command::Unknown { name: "\u{130}nfo".to_string() });
}

#[test]
fn an_unknown_command_is_given_as_typed() {
    assert_eq!(parse_command("Frobnicate 1 2"), Command::Unknown { name: "Frobnicate".to_string() });
    assert_eq!(parse_command("downloads 1"), Command::Unknown { name: "downloads".to_string() });
}

#[test]
fn download_takes_an_id_and_the_option_to_force() {
    assert_eq!(parse_command("download 100"), fetch("100", false));
    assert_eq!(parse_command("download -f 100"), fetch("100", true));
    assert_eq!(parse_command("download 100 --force"), fetch("100", true));
    assert_eq!(parse_command("DOWNLOAD 100 200"), fetch("200", false));
}

#[test]
fn download_without_arguments_shows_the_usage() {
    assert_eq!(parse_command("download"), Command::Download(DownloadArgs::Usage));
    assert_eq!(parse_download_args(&words(&["download"]), 1), DownloadArgs::Usage);
}

#[test]
fn download_names_the_first_unknown_option() {
    assert_eq!(
        parse_command("download 100 -x -y"),
        Command::Download(DownloadArgs::UnknownOption { option: "-x".to_string() })
    );
    assert_eq!(
        parse_command("download --forced 100"),
        Command::Download(DownloadArgs::UnknownOption { option: "--forced".to_string() })
    );
    assert_eq!(
        parse_command("download -"),
        Command::Download(DownloadArgs::UnknownOption { option: "-".to_string() })
    );
}

#[test]
fn download_needs_an_id() {
    assert_eq!(parse_command("download -f"), Command::Download(DownloadArgs::MissingId));
    assert_eq!(
        parse_download_args(&words(&["100", ""]), 0),
        DownloadArgs::MissingId
    );
    assert_eq!(
        parse_download_args(&words(&["", "100"]), 0),
        DownloadArgs::Fetch { id: "100".to_string(), force: false }
    );
}

#[test]
fn update_and_list_take_their_options_anywhere() {
    assert_eq!(parse_command("update"), Command::Update { force: false });
    assert_eq!(parse_command("update -f"), Command::Update { force: true });
    assert_eq!(parse_command("update x --force y"), Command::Update { force: true });
    assert_eq!(parse_command("update -F"), Command::Update { force: false });
    assert_eq!(parse_command("list"), Command::List { verbose: false });
    assert_eq!(parse_command("list -v"), Command::List { verbose: true });
    assert_eq!(parse_command("list a --verbose"), Command::List { verbose: true });
    assert_eq!(parse_command("list -f"), Command::List { verbose: false });
}

#[test]
fn remove_takes_its_first_argument() {
    assert_eq!(parse_command("remove"), Command::Remove { id: None });
    assert_eq!(parse_command("remove 100"), Command::Remove { id: Some("100".to_string()) });
    assert_eq!(parse_command("Remove 100 200"), Command::Remove { id: Some("100".to_string()) });
}
