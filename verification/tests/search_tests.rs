use kazane_game_launcher::game_list::{GameList, GameListEntry};

fn entry(id: &str, name: &str, tags: &[&str]) -> GameListEntry {
    GameListEntry {
        id: id.to_string(),
        name: name.to_string(),
        repo: format!("https://github.com/kazanefu/{}", id),
        description: None,
        tags: tags.iter().map(|t| t.to_string()).collect(),
    }
}

/// The catalogue of `data/game_list.json`.
fn sample_list() -> GameList {
    GameList {
        games: vec![
            entry("sample-game", "Sample Game", &[]),
            entry("zip-sample", "Zip Sample Game", &["sample-tag"]),
            entry("exe-sample", "Exe Sample Game", &["exe"]),
        ],
    }
}

#[test]
fn game_list_search_partial_and_tag() {
    let gl = sample_list();

    // partial match by name/id
    let res = gl.search("sample", None);
    assert!(res.len() >= 2, "expected at least 2 matches for 'sample', got {}", res.len());

    // partial id match
    let res2 = gl.search("exe", None);
    assert!(res2.iter().any(|g| g.id == "exe-sample"));

    // tag search for the sample-tag should return zip-sample only
    let res3 = gl.search("", Some(&["sample-tag"]));
    assert_eq!(res3.len(), 1);
    assert_eq!(res3[0].id, "zip-sample");
}

#[test]
fn search_is_case_insensitive_and_trims_the_query() {
    let gl = sample_list();
    let res = gl.search("  ZIP  ", None);
    assert_eq!(res.len(), 1);
    assert_eq!(res[0].id, "zip-sample");
    let by_name = gl.search("exe SAMPLE", None);
    assert_eq!(by_name.len(), 1);
    assert_eq!(by_name[0].id, "exe-sample");
}

#[test]
fn blank_search_returns_whole_catalogue_in_order() {
    let gl = sample_list();
    let res = gl.search("   ", None);
    let ids: Vec<&str> = res.iter().map(|g| g.id.as_str()).collect();
    assert_eq!(ids, vec!["sample-game", "zip-sample", "exe-sample"]);
}

#[test]
fn tag_search_needs_every_tag_any_case() {
    let gl = sample_list();
    assert_eq!(gl.search("", Some(&["SAMPLE-TAG"])).len(), 1);
    assert_eq!(gl.search("", Some(&["sample-tag", "exe"])).len(), 0);
    assert_eq!(gl.search("sample", Some(&["exe"]))[0].id, "exe-sample");
    assert_eq!(gl.search("nothing-like-this", None).len(), 0);
    // an empty tag list filters nothing
    assert_eq!(gl.search("", Some(&[])).len(), 3);
}

#[test]
fn find_by_id_takes_the_first_match() {
    let mut gl = sample_list();
    gl.games.push(entry("zip-sample", "Second", &[]));
    let e = gl.find_by_id("zip-sample").unwrap();
    assert_eq!(e.name, "Zip Sample Game");
    assert!(gl.find_by_id("missing").is_none());
}

#[test]
fn more_tags_never_add_results() {
    let gl = sample_list();
    let none = gl.search("sample", None).len();
    let one = gl.search("sample", Some(&["sample-tag"])).len();
    let two = gl.search("sample", Some(&["sample-tag", "exe"])).len();
    assert!(two <= one && one <= none);
    assert_eq!((none, one, two), (3, 1, 0));
}
