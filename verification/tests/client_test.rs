use novelter::client::ClientProfile;

#[test]
fn profiles_stay_inside_their_ranges() {
    for _ in 0..50 {
        let p = ClientProfile::new_profile();
        assert!((10..18).contains(&p.timeout_secs));
        assert!((5..10).contains(&p.connect_timeout_secs));
        assert!((15..20).contains(&p.read_timeout_secs));
        assert!(p.accept.starts_with("text/html,application/xhtml+xml,application/xml;q=0.9,"));
        assert!(!p.accept_language.is_empty());
        assert!(!p.user_agent.is_empty());
    }
}

#[test]
fn profiles_draw_from_the_fixed_header_lists() {
    let accepts = [
        "text/html,application/xhtml+xml,application/xml;q=0.9,image/webp,*/*;q=0.8",
        "text/html,application/xhtml+xml,application/xml;q=0.9,image/avif,image/webp,*/*;q=0.8",
        "text/html,application/xhtml+xml,application/xml;q=0.9,*/*;q=0.8",
    ];
    let languages = [
        "en-US,en;q=0.9",
        "ru-RU,ru;q=0.9,en-US;q=0.8,en;q=0.7",
        "en-GB,en;q=0.9",
        "de-DE,de;q=0.9",
    ];
    for _ in 0..50 {
        let p = ClientProfile::new_profile();
        assert!(accepts.contains(&p.accept.as_str()));
        assert!(languages.contains(&p.accept_language.as_str()));
    }
}
