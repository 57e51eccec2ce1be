use sonicdisk::catalogue::{find_read, is_readable, list_folder, locate, Located};
use sonicdisk::subsonic::{
    identify_song, IdentifiedAlbum, IdentifiedArtist, IdentifiedSong, Track,
};

fn song(id: &str, title: &str, url: Option<&str>) -> IdentifiedSong {
    identify_song(
        Track {
            id: id.to_string(),
            title: title.to_string(),
            content_type: String::from("audio/mpeg"),
        },
        url.map(String::from),
    )
}

fn album(name: &str, songs: Vec<IdentifiedSong>) -> IdentifiedAlbum {
    IdentifiedAlbum { album: name.to_string(), album_id: name.to_string(), songs }
}

fn artist(name: &str) -> IdentifiedArtist {
    IdentifiedArtist { artist: name.to_string(), artist_id: name.to_string() }
}

fn folders() -> Vec<(IdentifiedArtist, Vec<IdentifiedAlbum>)> {
    vec![
        (
            artist("ABBA"),
            vec![
                album("Arrival", vec![song("1", "Tiger", Some("u1")), song("2", "Dum", Some("u2"))]),
                album("Waterloo", vec![song("3", "Waterloo", Some("u3"))]),
            ],
        ),
        (artist("ABBA Teens"), vec![album("Arrival", vec![song("4", "Tiger", Some("u4"))])]),
        (artist("Silence"), vec![]),
    ]
}

fn at(path: &str) -> Option<Located> {
    locate(&folders(), &path.to_string())
}

fn shown(path: &str) -> Vec<Located> {
    list_folder(&folders(), &path.to_string())
}

#[test]
fn paths_lead_to_artists_albums_and_songs() {
    assert_eq!(at("\\ABBA"), Some(Located::Artist(0)));
    assert_eq!(at("\\ABBA Teens"), Some(Located::Artist(1)));
    assert_eq!(at("\\ABBA\\Waterloo"), Some(Located::Album(0, 1)));
    assert_eq!(at("\\ABBA Teens\\Arrival"), Some(Located::Album(1, 0)));
    assert_eq!(at("\\ABBA\\Arrival\\Dum.mp3"), Some(Located::Song(0, 0, 1)));
    assert_eq!(at("\\ABBA Teens\\Arrival\\Tiger.mp3"), Some(Located::Song(1, 0, 0)));
}

#[test]
fn other_paths_lead_nowhere() {
    for path in ["", "\\", "\\abba", "ABBA", "\\ABBA\\", "\\ABBA\\Arrival\\Dum", "\\ABBA\\13"] {
        assert_eq!(at(path), None);
    }
    assert_eq!(locate(&Vec::new(), &String::from("\\ABBA")), None);
}

#[test]
fn the_first_of_equal_paths_is_found() {
    let folders = vec![
        (artist("A"), vec![album("B", vec![song("1", "C", Some("first"))])]),
        (artist("A"), vec![album("B", vec![song("2", "C", Some("second"))])]),
        (artist("A\\B"), vec![]),
    ];
    assert_eq!(locate(&folders, &String::from("\\A\\B")), Some(Located::Album(0, 0)));
    let path = String::from("\\A\\B\\C.mp3");
    assert_eq!(locate(&folders, &path), Some(Located::Song(0, 0, 0)));
    assert_eq!(find_read(&folders, &path), Some(Located::Song(1, 0, 0)));
}

#[test]
fn the_root_shows_the_artists() {
    assert_eq!(shown("\\"), vec![Located::Artist(0), Located::Artist(1), Located::Artist(2)]);
}

#[test]
fn an_artist_shows_the_albums() {
    assert_eq!(shown("\\ABBA"), vec![Located::Album(0, 0), Located::Album(0, 1)]);
    assert_eq!(shown("\\ABBA Teens"), vec![Located::Album(1, 0)]);
    assert_eq!(shown("\\Silence"), Vec::new());
}

#[test]
fn an_album_shows_the_songs() {
    assert_eq!(shown("\\ABBA\\Arrival"), vec![Located::Song(0, 0, 0), Located::Song(0, 0, 1)]);
    assert_eq!(shown("\\ABBA Teens\\Arrival"), vec![Located::Song(1, 0, 0)]);
    assert_eq!(shown("\\ABBA\\Arrival\\Dum.mp3"), Vec::new());
    assert_eq!(shown("\\Blur"), Vec::new());
}

#[test]
fn an_artist_without_a_name_hides_behind_the_root() {
    let folders = vec![(artist(""), vec![album("B", vec![])])];
    assert_eq!(list_folder(&folders, &String::from("\\")), vec![Located::Artist(0)]);
}

#[test]
fn whatever_is_shown_is_found() {
    let names = |at: &Located| match *at {
        Located::Artist(i) => format!("\\{}", folders()[i].0.artist),
        Located::Album(i, j) => {
            format!("\\{}\\{}", folders()[i].0.artist, folders()[i].1[j].album)
        }
        Located::Song(i, j, k) => format!(
            "\\{}\\{}\\{}",
            folders()[i].0.artist,
            folders()[i].1[j].album,
            folders()[i].1[j].songs[k].get_filename()
        ),
    };
    let mut open = shown("\\");
    let mut count = 0;
    while let Some(next) = open.pop() {
        let path = names(&next);
        assert_eq!(at(&path), Some(next));
        if let Located::Song(_, _, _) = next {
            assert_eq!(find_read(&folders(), &path), Some(next));
        }
        open.extend(shown(&path));
        count += 1;
    }
    assert_eq!(count, 10);
}

#[test]
fn songs_are_read_by_path() {
    let path = String::from("\\ABBA\\Arrival\\Tiger.mp3");
    assert_eq!(find_read(&folders(), &path), Some(Located::Song(0, 0, 0)));
    assert_eq!(find_read(&folders(), &String::from("\\ABBA\\Arrival")), None);
    assert_eq!(find_read(&folders(), &String::from("\\ABBA")), None);
}

#[test]
fn songs_without_urls_are_unreadable() {
    assert!(is_readable(&folders(), &String::from("\\ABBA\\Arrival\\Tiger.mp3")));
    assert!(is_readable(&folders(), &String::from("\\nothing")));
    let folders = vec![(artist("A"), vec![album("B", vec![song("1", "C", None)])])];
    assert!(!is_readable(&folders, &String::from("\\A\\B\\C.mp3")));
    assert!(is_readable(&folders, &String::from("\\A\\B")));
}
