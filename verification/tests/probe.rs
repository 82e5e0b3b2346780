use code_flattener::inventory::{first_in, first_of_inventory, names_in, names_of_inventory};
use code_flattener::probe::{
    candidate_files, choose_present, excluded_name, keep_names, names_of_paths,
    paths_under_plugins, slugs_of, CommandOutput, DirEntryInfo, Probe, ProbeAnswer,
    ProbeRequest, SiteFacts,
};
use code_flattener::profiles::Profile;
use code_flattener::wordpress_profile::WordPressProfilePlugin;

fn words(items: &[&str]) -> Vec<String> {
    items.iter().map(|s| s.to_string()).collect()
}

fn printed(text: &str) -> ProbeAnswer {
    ProbeAnswer::Command(CommandOutput { success: true, stdout: text.as_bytes().to_vec() })
}

fn failed() -> ProbeAnswer {
    ProbeAnswer::Command(CommandOutput { success: false, stdout: b"[{\"name\":\"ghost\"}]".to_vec() })
}

fn concat_parts(parts: &[&str]) -> String {
    parts.iter().map(|p| p.to_string()).collect()
}

fn dir(name: &str) -> DirEntryInfo {
    DirEntryInfo { name: name.to_string(), is_dir: true }
}

fn need(probe: Probe<Option<Profile>>) -> ProbeRequest {
    match probe {
        Probe::Need(request) => request,
        Probe::Ready(_) => panic!("the probe is ready"),
    }
}

fn ready(probe: Probe<Option<Profile>>) -> Option<Profile> {
    match probe {
        Probe::Ready(profile) => profile,
        Probe::Need(request) => panic!("the probe needs {:?}", request),
    }
}

fn paths(probe: Probe<Vec<String>>) -> Vec<String> {
    match probe {
        Probe::Ready(list) => list,
        Probe::Need(request) => panic!("the probe needs {:?}", request),
    }
}

#[test]
fn inventory_names_are_read_from_json() {
    let text = concat_parts(&[
        "[{\"name\":\"akismet\",\"status\":\"active\"},",
        "{\"title\":\"x\"},{\"name\":5},{\"name\":\"hello\"},7]",
    ]);
    let out = Some(text.into_bytes());
    assert_eq!(names_of_inventory(&out), Some(words(&["akismet", "hello"])));
    assert_eq!(first_of_inventory(&out), Some("akismet".to_string()));
    assert_eq!(names_of_inventory(&Some(b"[]".to_vec())), Some(Vec::new()));
    assert_eq!(first_of_inventory(&Some(b"[]".to_vec())), None);
    assert_eq!(first_of_inventory(&Some(b"[{\"id\":1},{\"name\":\"second\"}]".to_vec())), None);
    assert_eq!(names_of_inventory(&Some(b"{\"name\":\"x\"}".to_vec())), None);
    assert_eq!(names_of_inventory(&Some(b"not json".to_vec())), None);
    assert_eq!(names_of_inventory(&Some(b"[{\"name\":\"x\"}] trailing".to_vec())), None);
    assert_eq!(names_of_inventory(&None), None);
    assert_eq!(first_of_inventory(&None), None);
}

#[test]
fn other_names_have_no_path_aware_profile() {
    let plugin = WordPressProfilePlugin;
    let facts = SiteFacts::new();
    assert!(ready(plugin.get_profile_for_path("rust", &None, &None, &None, &facts, '/')).is_none());
    assert!(ready(plugin.get_profile_for_path(
        "Wordpress",
        &None,
        &Some(words(&["a"])),
        &None,
        &facts,
        '/'
    ))
    .is_none());
}

#[test]
fn explicit_selection_asks_only_which_files_exist() {
    let plugin = WordPressProfilePlugin;
    let mut facts = SiteFacts::new();
    let only = Some(words(&["akismet", "woo\\commerce"]));
    let theme = Some("astra".to_string());
    let request = need(plugin.get_profile_for_path("wordpress", &None, &only, &theme, &facts, '/'));
    match &request {
        ProbeRequest::FilesPresent(files) => assert_eq!(
            files,
            &words(&[
                "wp-content/themes/astra/functions.php",
                "wp-content/themes/astra/style.css",
                "wp-content/plugins/akismet/akismet.php",
                "wp-content/plugins/woo\\commerce/woo\\commerce.php",
            ])
        ),
        other => panic!("unexpected request {:?}", other),
    }
    facts.record(&request, ProbeAnswer::Present(vec![true, false, true, true]));
    let profile =
        ready(plugin.get_profile_for_path("wordpress", &None, &only, &theme, &facts, '/')).unwrap();
    assert_eq!(profile.description, "WordPress site with specific theme/plugins.");
    assert_eq!(profile.allowed_extensions.len(), 20);
    assert_eq!(profile.allowed_extensions[0], ".php");
    assert_eq!(
        profile.allowed_filenames,
        words(&[
            "wp-config.php",
            "wp-content/themes/astra/functions.php",
            "wp-content/plugins/akismet/akismet.php",
            "wp-content/plugins/woo/commerce/woo/commerce.php",
        ])
    );
}

#[test]
fn explicit_theme_alone_asks_for_its_two_files_only() {
    let plugin = WordPressProfilePlugin;
    let mut facts = SiteFacts::new();
    let excluded = Some(words(&["HELLO-dolly"]));
    let theme = Some("astra".to_string());
    let request =
        need(plugin.get_profile_for_path("wordpress", &excluded, &None, &theme, &facts, '/'));
    match &request {
        ProbeRequest::FilesPresent(files) => assert_eq!(
            files,
            &words(&[
                "wp-content/themes/astra/functions.php",
                "wp-content/themes/astra/style.css",
            ])
        ),
        other => panic!("unexpected request {:?}", other),
    }
    facts.record(&request, ProbeAnswer::Present(vec![false, true]));
    assert!(facts.active_plugins_here.is_none());
    assert!(facts.active_plugins.is_none());
    assert!(facts.active_themes.is_none());
    assert!(facts.plugin_directory.is_none());
    let profile =
        ready(plugin.get_profile_for_path("wordpress", &excluded, &None, &theme, &facts, '/'))
            .unwrap();
    assert_eq!(profile.description, "WordPress site with specific theme/plugins.");
    assert_eq!(
        profile.allowed_filenames,
        words(&["wp-config.php", "wp-content/themes/astra/style.css"])
    );
}

#[test]
fn explicit_selection_ignores_what_else_is_known_of_the_site() {
    let plugin = WordPressProfilePlugin;
    let mut facts = SiteFacts::new();
    facts.record(&ProbeRequest::ActivePluginsHere, printed("[{\"name\":\"akismet\"}]"));
    facts.record(&ProbeRequest::ActivePlugins, printed("[{\"name\":\"jetpack\"}]"));
    facts.record(&ProbeRequest::ActiveThemes, printed("[{\"name\":\"other\"}]"));
    let theme = Some("astra".to_string());
    let only = Some(words(&["hello"]));
    let excluded = Some(words(&["hello"]));
    let request =
        need(plugin.get_profile_for_path("wordpress", &excluded, &only, &theme, &facts, '/'));
    match &request {
        ProbeRequest::FilesPresent(files) => assert_eq!(
            files,
            &words(&[
                "wp-content/themes/astra/functions.php",
                "wp-content/themes/astra/style.css",
                "wp-content/plugins/hello/hello.php",
            ])
        ),
        other => panic!("unexpected request {:?}", other),
    }
}

#[test]
fn detection_walks_through_its_requests() {
    let plugin = WordPressProfilePlugin;
    let mut facts = SiteFacts::new();
    let excluded = Some(words(&["hello-dolly"]));
    let ask = |facts: &SiteFacts| {
        plugin.get_profile_for_path("wordpress", &excluded, &None, &None, facts, '/')
    };
    let request = need(ask(&facts));
    assert!(matches!(request, ProbeRequest::ActiveThemes));
    facts.record(&request, printed("[{\"name\":\"astra\",\"status\":\"active\"},{\"name\":\"other\"}]"));
    let request = need(ask(&facts));
    assert!(matches!(request, ProbeRequest::ActivePlugins));
    facts.record(
        &request,
        printed("[{\"name\":\"akismet\"},{\"name\":\"Hello-Dolly\"},{\"name\":\"woocommerce/woocommerce.php\"}]"),
    );
    let request = need(ask(&facts));
    match &request {
        ProbeRequest::FilesPresent(files) => assert_eq!(
            files,
            &words(&[
                "wp-content/themes/astra/functions.php",
                "wp-content/themes/astra/style.css",
                "wp-content/plugins/akismet/akismet.php",
                "wp-content/plugins/woocommerce/woocommerce.php",
            ])
        ),
        other => panic!("unexpected request {:?}", other),
    }
    facts.record(&request, ProbeAnswer::Present(vec![true, true, true]));
    let profile = ready(ask(&facts)).unwrap();
    assert_eq!(profile.description, "WordPress site with active theme and plugins (path-aware).");
    assert_eq!(
        profile.allowed_extensions,
        words(&[".js", ".css", ".scss", ".sass", ".less", ".json", ".txt", ".md"])
    );
    assert_eq!(
        profile.allowed_filenames,
        words(&[
            "wp-config.php",
            "wp-content/themes/astra/functions.php",
            "wp-content/themes/astra/style.css",
            "wp-content/plugins/akismet/akismet.php",
        ])
    );
}

#[test]
fn detection_falls_back_to_the_plugin_directory() {
    let plugin = WordPressProfilePlugin;
    let mut facts = SiteFacts::new();
    let ask =
        |facts: &SiteFacts| plugin.get_profile_for_path("wordpress", &None, &None, &None, facts, '/');
    let request = need(ask(&facts));
    facts.record(&request, failed());
    let request = need(ask(&facts));
    assert!(matches!(request, ProbeRequest::ActivePlugins));
    facts.record(&request, printed("this is no json"));
    let request = need(ask(&facts));
    assert!(matches!(request, ProbeRequest::PluginDirectory));
    facts.record(
        &request,
        ProbeAnswer::Entries(vec![
            dir("akismet"),
            dir(".git"),
            DirEntryInfo { name: "index.php".to_string(), is_dir: false },
            dir("hello"),
        ]),
    );
    let request = need(ask(&facts));
    match &request {
        ProbeRequest::FilesPresent(files) => assert_eq!(
            files,
            &words(&[
                "wp-content/plugins/akismet/akismet.php",
                "wp-content/plugins/hello/hello.php",
            ])
        ),
        other => panic!("unexpected request {:?}", other),
    }
    facts.record(&request, ProbeAnswer::Present(vec![false, true]));
    let profile = ready(ask(&facts)).unwrap();
    assert_eq!(
        profile.allowed_filenames,
        words(&["wp-config.php", "wp-content/plugins/hello/hello.php"])
    );
}

#[test]
fn detection_without_anything_gives_an_empty_but_valid_profile() {
    let plugin = WordPressProfilePlugin;
    let mut facts = SiteFacts::new();
    let ask =
        |facts: &SiteFacts| plugin.get_profile_for_path("wordpress", &None, &None, &None, facts, '/');
    for _ in 0..4 {
        match ask(&facts) {
            Probe::Need(request) => {
                let answer = match &request {
                    ProbeRequest::PluginDirectory => ProbeAnswer::Entries(Vec::new()),
                    ProbeRequest::FilesPresent(_) => ProbeAnswer::Present(Vec::new()),
                    _ => failed(),
                };
                facts.record(&request, answer);
            }
            Probe::Ready(_) => panic!("ready too early"),
        }
    }
    let profile = ready(ask(&facts)).unwrap();
    assert_eq!(profile.allowed_filenames, words(&["wp-config.php"]));
    assert_eq!(profile.allowed_extensions.len(), 8);
}

#[test]
fn active_plugins_come_from_the_inventory_or_the_directory() {
    let plugin = WordPressProfilePlugin;
    let mut facts = SiteFacts::new();
    assert!(matches!(
        plugin.get_active_plugins(&facts),
        Probe::Need(ProbeRequest::ActivePluginsHere)
    ));
    facts.record(&ProbeRequest::ActivePluginsHere, printed("[{\"name\":\"a\"},{\"name\":\"b\"}]"));
    assert_eq!(
        paths(plugin.get_active_plugins(&facts)),
        words(&["wp-content/plugins/a", "wp-content/plugins/b"])
    );
    let mut facts = SiteFacts::new();
    facts.record(&ProbeRequest::ActivePluginsHere, failed());
    assert!(matches!(
        plugin.get_active_plugins(&facts),
        Probe::Need(ProbeRequest::PluginDirectory)
    ));
    facts.record(&ProbeRequest::PluginDirectory, ProbeAnswer::Entries(vec![dir("c"), dir(".d")]));
    assert_eq!(paths(plugin.get_active_plugins(&facts)), words(&["wp-content/plugins/c"]));
    assert_eq!(paths(plugin.get_available_plugins(&facts)), words(&["wp-content/plugins/c"]));
}

#[test]
fn available_plugins_need_the_directory() {
    let plugin = WordPressProfilePlugin;
    let mut facts = SiteFacts::new();
    assert!(matches!(
        plugin.get_available_plugins(&facts),
        Probe::Need(ProbeRequest::PluginDirectory)
    ));
    facts.record(&ProbeRequest::PluginDirectory, ProbeAnswer::Entries(Vec::new()));
    assert_eq!(paths(plugin.get_available_plugins(&facts)), Vec::<String>::new());
}

#[test]
fn an_answer_of_the_wrong_kind_counts_as_nothing() {
    let mut facts = SiteFacts::new();
    facts.record(&ProbeRequest::ActiveThemes, ProbeAnswer::Present(vec![true]));
    let themes = facts.active_themes.as_ref().unwrap();
    assert!(!themes.success);
    facts.record(&ProbeRequest::FilesPresent(Vec::new()), printed("[]"));
    assert_eq!(facts.files_present, Some(Vec::new()));
    facts.record(&ProbeRequest::PluginDirectory, ProbeAnswer::Present(vec![true]));
    assert!(facts.plugin_directory.as_ref().unwrap().is_empty());
    assert!(facts.active_plugins.is_none());
    assert!(facts.active_plugins_here.is_none());
}

#[test]
fn names_are_picked_from_given_fields() {
    let fields = vec![Some("a".to_string()), None, Some("b".to_string()), None];
    assert_eq!(names_in(&fields), words(&["a", "b"]));
    assert_eq!(first_in(&fields), Some("a".to_string()));
    assert_eq!(first_in(&vec![None, Some("b".to_string())]), None);
    assert_eq!(first_in(&Vec::new()), None);
    assert_eq!(names_in(&Vec::new()), Vec::<String>::new());
}

#[test]
fn candidates_are_built_from_given_names() {
    assert_eq!(
        candidate_files(&Some("astra".to_string()), &words(&["akismet", "a/b"])),
        words(&[
            "wp-content/themes/astra/functions.php",
            "wp-content/themes/astra/style.css",
            "wp-content/plugins/akismet/akismet.php",
            "wp-content/plugins/a/b/a/b.php",
        ])
    );
    assert_eq!(candidate_files(&None, &Vec::new()), Vec::<String>::new());
    assert_eq!(
        paths_under_plugins(&words(&["x", ""])),
        words(&["wp-content/plugins/x", "wp-content/plugins/"])
    );
    assert_eq!(
        names_of_paths(&words(&["wp-content/plugins/x", "wp-content/plugins/"]), '/'),
        words(&["x", "plugins"])
    );
    assert_eq!(slugs_of(&words(&["woo/woo.php", "plain", "/odd"])), words(&["woo", "plain", ""]));
}

#[test]
fn present_candidates_are_chosen_by_position() {
    let files = words(&["a", "b\\c", "d"]);
    assert_eq!(choose_present(&files, &vec![true, true, true]), words(&["wp-config.php", "a", "b/c", "d"]));
    assert_eq!(choose_present(&files, &vec![false, true]), words(&["wp-config.php", "b/c"]));
    assert_eq!(choose_present(&files, &vec![true, false, false, true]), words(&["wp-config.php", "a"]));
    assert_eq!(choose_present(&files, &Vec::new()), words(&["wp-config.php"]));
}

#[test]
fn exclusion_leaves_case_aside() {
    let excluded = words(&["Hello-Dolly", "WOO"]);
    assert!(excluded_name("hello-dolly", &excluded));
    assert!(excluded_name("Woo", &excluded));
    assert!(!excluded_name("woocommerce", &excluded));
    assert!(!excluded_name("hello", &Vec::new()));
    assert_eq!(
        keep_names(words(&["akismet", "HELLO-DOLLY", "woo", "jetpack"]), &Some(excluded)),
        words(&["akismet", "jetpack"])
    );
    assert_eq!(keep_names(words(&["a", "b"]), &None), words(&["a", "b"]));
}
