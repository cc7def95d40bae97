use drive_wallpaper::desktop::{
    arguments_for, contains_word, desktop_of, file_url, plasma_script, program_for,
    second_file_name, shuffle_for, Desktop, Shuffle,
};
use drive_wallpaper::error::CycleError;
use drive_wallpaper::image::{check_response, extension_for, wallpaper_file_name, Extension};
use drive_wallpaper::query::{children_query, collect_ids, flatten, folder_query};

#[test]
fn content_types_map_to_extensions() {
    assert_eq!(extension_for("image/jpeg"), Ok(Extension::Jpg));
    assert_eq!(extension_for("image/jpg"), Ok(Extension::Jpg));
    assert_eq!(extension_for("image/png"), Ok(Extension::Png));
    assert_eq!(extension_for("image/gif"), Err(CycleError::UnsupportedContentType));
    assert_eq!(extension_for(""), Err(CycleError::UnsupportedContentType));
    assert_eq!(extension_for("image/PNG"), Err(CycleError::UnsupportedContentType));
    assert_eq!(extension_for("image/png; q=1"), Err(CycleError::UnsupportedContentType));
}

#[test]
fn response_is_judged_by_status_first() {
    assert_eq!(check_response(false, Some("image/png")), Err(CycleError::DownloadError));
    assert_eq!(check_response(false, None), Err(CycleError::DownloadError));
    assert_eq!(check_response(true, None), Err(CycleError::UnsupportedContentType));
    assert_eq!(check_response(true, Some("text/html")), Err(CycleError::UnsupportedContentType));
    assert_eq!(check_response(true, Some("image/png")), Ok(Extension::Png));
    assert_eq!(check_response(true, Some("image/jpeg")), Ok(Extension::Jpg));
}

#[test]
fn wallpaper_file_names() {
    assert_eq!(wallpaper_file_name(Extension::Png), "background.png");
    assert_eq!(wallpaper_file_name(Extension::Jpg), "background.jpg");
    assert_eq!(Extension::Png.suffix(), "png");
    assert_eq!(Extension::Jpg.suffix(), "jpg");
}

#[test]
fn queries_embed_the_name() {
    assert_eq!(
        folder_query("walls"),
        "mimeType = 'application/vnd.google-apps.folder' and name = 'walls'"
    );
    assert_eq!(children_query("f1"), "'f1' in parents");
}

#[test]
fn collect_ids_keeps_present_ids_in_order() {
    let entries = vec![Some("a".to_string()), None, Some("b".to_string()), None];
    assert_eq!(collect_ids(entries), vec!["a".to_string(), "b".to_string()]);
    assert_eq!(collect_ids(vec![None, None]), Vec::<String>::new());
    assert_eq!(collect_ids(vec![]), Vec::<String>::new());
}

#[test]
fn flatten_joins_groups_in_order() {
    let groups = vec![
        vec!["a".to_string(), "b".to_string()],
        vec![],
        vec!["c".to_string()],
    ];
    assert_eq!(flatten(groups), vec!["a".to_string(), "b".to_string(), "c".to_string()]);
    assert_eq!(flatten(vec![]), Vec::<String>::new());
}

#[test]
fn contains_word_finds_substrings() {
    assert!(contains_word("plasma", "plasma"));
    assert!(contains_word("/usr/share/xsessions/plasmawayland", "plasma"));
    assert!(contains_word("abc", ""));
    assert!(contains_word("", ""));
    assert!(!contains_word("", "a"));
    assert!(!contains_word("plasm", "plasma"));
    assert!(!contains_word("gnome", "plasma"));
    assert!(contains_word("pplasma", "plasma"));
    assert!(contains_word("xxplasmé", "plasmé"));
}

#[test]
fn desktop_is_told_from_the_session() {
    assert_eq!(desktop_of(Some("plasma")), Desktop::Plasma);
    assert_eq!(desktop_of(Some("plasmax11")), Desktop::Plasma);
    assert_eq!(desktop_of(Some("gnome")), Desktop::Gnome);
    assert_eq!(desktop_of(Some("Plasma")), Desktop::Gnome);
    assert_eq!(desktop_of(None), Desktop::Gnome);
}

#[test]
fn plasma_alternates_between_two_files() {
    assert_eq!(shuffle_for(true), Shuffle::RemoveSecond);
    assert_eq!(shuffle_for(false), Shuffle::RenameToSecond);
    assert_eq!(second_file_name("background", "png"), "background2.png");
}

#[test]
fn commands_for_each_desktop() {
    assert_eq!(file_url("/home/u/.config/x/background.png"), "file:///home/u/.config/x/background.png");
    assert_eq!(program_for(Desktop::Gnome), "gsettings");
    assert_eq!(program_for(Desktop::Plasma), "qdbus");
    assert_eq!(
        arguments_for(Desktop::Gnome, "file:///b.png"),
        vec!["set", "org.gnome.desktop.background", "picture-uri", "file:///b.png"]
    );
    let arguments = arguments_for(Desktop::Plasma, "file:///b.png");
    assert_eq!(arguments.len(), 4);
    assert_eq!(arguments[0], "org.kde.plasmashell");
    assert_eq!(arguments[1], "/PlasmaShell");
    assert_eq!(arguments[2], "org.kde.PlasmaShell.evaluateScript");
    assert_eq!(arguments[3], plasma_script("file:///b.png"));
    assert!(arguments[3].contains("d.writeConfig(\"Image\", \"file:///b.png\");"));
    assert!(arguments[3].contains("desktops().forEach((d) => {"));
    assert!(arguments[3].trim_end().ends_with("});"));
}
