use sonicdisk::fields::read_field;
use sonicdisk::subsonic::{
    album as read_album, artist_albums, artist_id_in, client, content_type_in, desired_folders,
    identify_song, made_client, songvec_to_identifiedsongvec, ClientError, IdentifiedAlbum,
    IdentifiedArtist, IdentifiedSong, ServerAlbum, SubsonicInfo, Track,
};

fn track(id: &str, title: &str, content_type: &str) -> Track {
    Track { id: id.to_string(), title: title.to_string(), content_type: content_type.to_string() }
}

fn artist(name: &str, id: &str) -> IdentifiedArtist {
    IdentifiedArtist { artist: name.to_string(), artist_id: id.to_string() }
}

fn album(name: &str, id: &str) -> IdentifiedAlbum {
    IdentifiedAlbum { album: name.to_string(), album_id: id.to_string(), songs: Vec::new() }
}

fn server_album(name: &str, id: &str, artist: Option<&str>, artist_id: Option<&str>) -> ServerAlbum {
    ServerAlbum {
        id: id.to_string(),
        name: name.to_string(),
        artist: artist.map(String::from),
        artist_id: artist_id.map(String::from),
        songs: Vec::new(),
    }
}

/// A song of the server; `title` and `content_type` are escaped as in JSON.
fn song_with(id: u64, title: &str, content_type: &str, more: &str) -> sunk::song::Song {
    let text = format!(
        "{{\"id\":\"{id}\",\"parent\":\"1\",\"isDir\":false,\"title\":\"{title}\",\"size\":10,\
         \"contentType\":\"{content_type}\",\"suffix\":\"x\",\"path\":\"p\",\"playCount\":0,\
         \"created\":\"2017-03-12T11:07:25.000Z\",\"type\":\"music\"{more}}}"
    );
    serde_json::from_str(&text).unwrap()
}

fn song(id: u64, title: &str, content_type: &str) -> sunk::song::Song {
    song_with(id, title, content_type, "")
}

fn shown_album(name: &str, more: &str) -> sunk::Album {
    let text = format!(
        "{{\"id\":\"1\",\"name\":\"{name}\",\"artist\":\"ABBA\",\"songCount\":0,\"duration\":0,\
         \"created\":\"2017-03-12T11:07:25.000Z\"{more}}}"
    );
    serde_json::from_str(&text).unwrap()
}

#[test]
fn file_names_have_the_extension_of_the_format() {
    let flac = identify_song(track("1", "Waterloo", "audio/x-flac"), None);
    let mp3 = identify_song(track("2", "Waterloo", "audio/mpeg"), None);
    let other = identify_song(track("3", "Waterloo", "audio/ogg"), None);
    assert_eq!(flac.get_filename(), "Waterloo.flac");
    assert_eq!(mp3.get_filename(), "Waterloo.mp3");
    assert_eq!(other.get_filename(), "Waterloo");
}

#[test]
fn sizes_are_known_of_songs_with_urls() {
    let without = identify_song(track("1", "t", "audio/mpeg"), None);
    let with = identify_song(track("1", "t", "audio/mpeg"), Some(String::from("http://x/")));
    assert_eq!(without.get_size(b""), None);
    assert_eq!(with.get_size(b"5242880"), Some(5242880));
}

#[test]
fn songs_are_told_apart_by_identifier() {
    let a = identify_song(track("1", "One", "audio/mpeg"), None);
    let b = identify_song(track("1", "Two", "audio/ogg"), Some(String::from("u")));
    let c = identify_song(track("2", "One", "audio/mpeg"), None);
    assert!(a == b);
    assert!(a != c);
    assert!(artist("ABBA", "1") == artist("Abba", "1"));
    assert!(artist("ABBA", "1") != artist("ABBA", "2"));
    assert!(album("Arrival", "1") == album("arrival", "1"));
    assert!(album("Arrival", "1") != album("Arrival", "2"));
}

#[test]
fn albums_are_sorted_into_folders() {
    let pairs = vec![
        (artist("ABBA", "a"), album("Arrival", "1")),
        (artist("Blur", "b"), album("Blur", "2")),
        (artist("Abba", "a"), album("Waterloo", "3")),
        (artist("ABBA", "c"), album("Ring Ring", "4")),
        (artist("Blur", "b"), album("13", "5")),
    ];
    let folders = desired_folders(pairs);
    let shown: Vec<(&str, Vec<&str>)> = folders
        .iter()
        .map(|(artist, albums)| {
            (artist.artist.as_str(), albums.iter().map(|album| album.album.as_str()).collect())
        })
        .collect();
    assert_eq!(
        shown,
        vec![
            ("ABBA", vec!["Arrival", "Waterloo"]),
            ("Blur", vec!["Blur", "13"]),
            ("ABBA", vec!["Ring Ring"]),
        ]
    );
    assert_eq!(folders.iter().map(|(_, albums)| albums.len()).sum::<usize>(), 5);
}

#[test]
fn no_albums_make_no_folders() {
    assert!(desired_folders(Vec::new()).is_empty());
    assert!(SubsonicInfo::new(Vec::new()).desired_folders.is_empty());
}

#[test]
fn albums_stand_beside_their_artists() {
    let pairs = artist_albums(vec![
        server_album("Arrival", "1", Some("ABBA"), Some("a")),
        server_album("Blur", "2", Some("Blur"), Some("b")),
    ]);
    assert_eq!(pairs.len(), 2);
    assert_eq!(pairs[0].0.artist, "ABBA");
    assert_eq!(pairs[0].0.artist_id, "a");
    assert_eq!(pairs[1].1.album, "Blur");
    assert_eq!(pairs[1].1.album_id, "2");
    let info = SubsonicInfo::new(vec![server_album("Arrival", "1", Some("ABBA"), Some("a"))]);
    assert_eq!(info.desired_folders.len(), 1);
    assert_eq!(info.desired_folders[0].1[0].album, "Arrival");
}

#[test]
fn albums_may_lack_an_artist() {
    assert!(server_album("x", "1", Some("ABBA"), Some("a")).has_artist());
    assert!(!server_album("x", "1", None, Some("a")).has_artist());
    assert!(!server_album("x", "1", Some("ABBA"), None).has_artist());
}

#[test]
fn songs_of_the_server_are_identified() {
    let songs = vec![song(17, "Waterloo", "audio/x-flac"), song(4, "SOS", "audio/mpeg")];
    let known: Vec<IdentifiedSong> = songvec_to_identifiedsongvec(songs, None).unwrap();
    assert_eq!(known.len(), 2);
    assert_eq!(known[0].song, "Waterloo");
    assert_eq!(known[0].song_id, "17");
    assert_eq!(known[0].streamable.content_type, "audio/x-flac");
    assert_eq!(known[0].get_filename(), "Waterloo.flac");
    assert_eq!(known[1].song, "SOS");
    assert_eq!(known[1].song_id, "4");
    assert_eq!(known[1].get_filename(), "SOS.mp3");
    assert!(known[1].url.is_none());
}

#[test]
fn songs_get_urls_from_a_client() {
    let client = client("http://music.example.com/", "user", "pass").unwrap();
    let songs = vec![song(17, "Waterloo", "audio/x-flac"), song(4, "SOS", "audio/mpeg")];
    let known = songvec_to_identifiedsongvec(songs, Some(&client)).unwrap();
    for (song, number) in known.iter().zip(["17", "4"]) {
        let url = song.url.clone().unwrap();
        let parts: Vec<&str> = url.split('&').collect();
        assert_eq!(parts.len(), 7);
        assert_eq!(parts[0], "http://music.example.com/rest/download?u=user");
        let token = parts[1].strip_prefix("t=").unwrap();
        assert_eq!(token.len(), 32);
        assert!(token.chars().all(|c| c.is_ascii_hexdigit()));
        let salt = parts[2].strip_prefix("s=").unwrap();
        assert_eq!(salt.len(), 36);
        assert!(salt.chars().all(|c| c.is_ascii_alphanumeric()));
        assert_eq!(parts[3..6], ["v=1.14.0", "c=sunk", "f=json"]);
        assert_eq!(parts[6], format!("id={number}"));
    }
    assert_ne!(known[0].url, known[1].url);
}

#[test]
fn a_transcoded_song_keeps_its_own_format() {
    let more = ",\"transcodedContentType\":\"audio/mpeg\",\"transcodedSuffix\":\"mp3\"";
    let songs = vec![song_with(1, "Waterloo", "audio/x-flac", more)];
    assert_eq!(sunk::Streamable::encoding(&songs[0]), "audio/mpeg");
    let known = songvec_to_identifiedsongvec(songs, None).unwrap();
    assert_eq!(known[0].streamable.content_type, "audio/x-flac");
    assert_eq!(known[0].get_filename(), "Waterloo.flac");
}

#[test]
fn a_title_cannot_pass_for_a_format() {
    let title = "x, content_type: \\\"audio/mpeg\\\", y\\\\";
    let songs = vec![song(1, title, "audio/x-flac")];
    let known = songvec_to_identifiedsongvec(songs, None).unwrap();
    assert_eq!(known[0].song, "x, content_type: \"audio/mpeg\", y\\");
    assert_eq!(known[0].streamable.content_type, "audio/x-flac");
    assert_eq!(content_type_in("Song { content_type: \"a/b\", x: 1 }"), "a/b");
    assert_eq!(content_type_in("Song { transcoded_content_type: \"a/b\" }"), "");
    assert_eq!(content_type_in("Song { content_type: \"a/b"), "");
}

#[test]
fn albums_show_the_numbers_of_their_artists() {
    let id = |album: &sunk::Album| artist_id_in(&format!("{:?}", album));
    let with = shown_album("Arrival", ",\"artistId\":\"57\"");
    assert_eq!(id(&with), Some(String::from("57")));
    let without = shown_album("x, artist_id: Some(3), y", "");
    assert_eq!(id(&without), None);
    let named = shown_album("x, artist_id: Some(3), y", ",\"artistId\":\"57\"");
    assert_eq!(id(&named), Some(String::from("57")));
    assert_eq!(artist_id_in(""), None);
}

#[test]
fn fields_are_read_outside_of_quotes() {
    let text = "S { a: \"b: 1,\", b: 2, c: 3 }";
    assert_eq!(read_field(text, " b: ", ','), Some(String::from("2")));
    assert_eq!(read_field(text, " c: ", ','), None);
    assert_eq!(read_field(text, " c: ", ' '), Some(String::from("3")));
    assert_eq!(read_field(text, " d: ", ' '), None);
    assert_eq!(read_field("\"\\\" x: 1 \" x: 2 ", " x: ", ' '), Some(String::from("2")));
}

#[test]
fn addresses_without_a_host_have_no_songs() {
    let client = client("data:text/plain,x", "user", "pass").unwrap();
    assert!(songvec_to_identifiedsongvec(Vec::new(), Some(&client)).is_ok());
    let songs = vec![song(17, "Waterloo", "audio/x-flac")];
    assert!(songvec_to_identifiedsongvec(songs, Some(&client)).is_err());
}

#[test]
fn what_is_no_address_has_no_client() {
    for site in ["not an address", "", "music.example.com", "http://"] {
        assert_eq!(client(site, "user", "pass").unwrap_err(), ClientError::Address);
    }
}

#[test]
fn a_client_is_handed_on_and_errors_are_told_apart() {
    let made = sunk::Client::new("http://music.example.com/", "user", "pass");
    assert!(made_client(made).is_ok());
    let address = sunk::Error::Url(sunk::UrlError::Address);
    assert_eq!(made_client(Err(address)).unwrap_err(), ClientError::Address);
    let other = sunk::Error::Other("no threads");
    assert_eq!(made_client(Err(other)).unwrap_err(), ClientError::Machine);
}

#[test]
fn albums_of_the_server_are_read() {
    let songs = vec![identify_song(track("1", "Waterloo", "audio/mpeg"), None)];
    let listed = shown_album("Arrival", ",\"artistId\":\"57\"");
    let read = read_album(&listed, songs);
    assert_eq!(read.id, "1");
    assert_eq!(read.name, "Arrival");
    assert_eq!(read.artist, Some(String::from("ABBA")));
    assert_eq!(read.artist_id, Some(String::from("57")));
    assert_eq!(read.songs.len(), 1);
    assert!(read.has_artist());
    let nameless = "{\"id\":\"12\",\"name\":\"x\",\"songCount\":0,\"duration\":0,\"created\":\"c\"}";
    let read = read_album(&serde_json::from_str(nameless).unwrap(), Vec::new());
    assert_eq!((read.id.as_str(), read.artist.clone(), read.artist_id.clone()), ("12", None, None));
    assert!(!read.has_artist());
}

#[test]
fn an_album_without_an_artist_takes_none_from_its_songs() {
    let song = "{\"id\":\"5\",\"parent\":\"1\",\"isDir\":false,\"title\":\"t\",\"size\":1,\
        \"contentType\":\"audio/mpeg\",\"suffix\":\"x\",\"path\":\"p\",\"playCount\":0,\
        \"created\":\"c\",\"type\":\"music\",\"artistId\":\"9\"}";
    let listed = shown_album("Arrival", &format!(",\"song\":[{song}]"));
    assert_eq!(read_album(&listed, Vec::new()).artist_id, None);
}

#[test]
fn artists_with_one_name_stay_apart() {
    let first = shown_album("Arrival", ",\"artistId\":\"57\"");
    let second = shown_album("Waterloo", ",\"artistId\":\"58\"");
    let albums = vec![read_album(&first, Vec::new()), read_album(&second, Vec::new())];
    assert_eq!(SubsonicInfo::new(albums).desired_folders.len(), 2);
}
