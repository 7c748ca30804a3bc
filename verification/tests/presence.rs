use sel_core::presence::PresenceTracker;

fn texts(items: &[&str]) -> Vec<String> {
    items.iter().map(|s| String::from(*s)).collect()
}

#[test]
fn empty_tracker_gives_no_block() {
    let t = PresenceTracker::new();
    assert_eq!(t.get_context_for_prompt(5), "");
    assert_eq!(t.get_context_for_prompt(0), "");
}

#[test]
fn presence_block_lists_users_in_the_order_first_seen() {
    let mut t = PresenceTracker::new();
    t.update_presence(
        String::from("111"),
        String::from("online"),
        texts(&["Playing chess", "Listening to jazz"]),
    );
    t.update_presence(String::from("222"), String::from("offline"), Vec::new());
    t.update_presence(String::from("333"), String::from("dnd"), texts(&["Coding"]));
    assert_eq!(
        t.get_context_for_prompt(5),
        "[DISCORD PRESENCE (2 online)]\n  \
\u{2022} User 111 (online) - Playing chess, Listening to jazz\n  \
\u{2022} User 222 (offline)\n  \
\u{2022} User 333 (dnd) - Coding\n\
[/DISCORD PRESENCE]\n"
    );
}

#[test]
fn presence_block_shows_at_most_the_limit_but_counts_all() {
    let mut t = PresenceTracker::new();
    for id in ["1", "2", "3", "4"] {
        t.update_presence(String::from(id), String::from("idle"), Vec::new());
    }
    assert_eq!(
        t.get_context_for_prompt(2),
        "[DISCORD PRESENCE (4 online)]\n  \u{2022} User 1 (idle)\n  \u{2022} User 2 (idle)\n[/DISCORD PRESENCE]\n"
    );
    assert_eq!(
        t.get_context_for_prompt(0),
        "[DISCORD PRESENCE (4 online)]\n[/DISCORD PRESENCE]\n"
    );
}

#[test]
fn update_replaces_what_was_known_of_a_user() {
    let mut t = PresenceTracker::new();
    t.update_presence(String::from("1"), String::from("online"), texts(&["A"]));
    t.update_presence(String::from("2"), String::from("online"), Vec::new());
    t.update_presence(String::from("1"), String::from("invisible"), Vec::new());
    assert_eq!(
        t.get_context_for_prompt(9),
        "[DISCORD PRESENCE (1 online)]\n  \u{2022} User 1 (invisible)\n  \u{2022} User 2 (online)\n[/DISCORD PRESENCE]\n"
    );
}

#[test]
fn only_three_statuses_count_as_online() {
    let mut t = PresenceTracker::new();
    for (id, status) in [("1", "online"), ("2", "idle"), ("3", "dnd"), ("4", "offline"), ("5", "Online"), ("6", "")] {
        t.update_presence(String::from(id), String::from(status), Vec::new());
    }
    assert!(t.get_context_for_prompt(0).starts_with("[DISCORD PRESENCE (3 online)]\n"));
}

#[test]
fn clear_forgets_everybody() {
    let mut t = PresenceTracker::new();
    t.update_presence(String::from("1"), String::from("online"), Vec::new());
    t.clear();
    assert_eq!(t.get_context_for_prompt(5), "");
    t.update_presence(String::from("2"), String::from("idle"), Vec::new());
    assert_eq!(
        t.get_context_for_prompt(5),
        "[DISCORD PRESENCE (1 online)]\n  \u{2022} User 2 (idle)\n[/DISCORD PRESENCE]\n"
    );
}
