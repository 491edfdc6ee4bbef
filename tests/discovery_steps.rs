use alacritty_ipc::discovery::{ConnectOutcome, Discovery, DiscoveryError, Step};

fn s(v: &str) -> String {
    v.to_string()
}

fn names(v: &[&str]) -> Vec<String> {
    v.iter().map(|n| n.to_string()).collect()
}

#[test]
fn explicit_path_is_tried_alone() {
    let mut d = Discovery::new(Some(s("/x.sock")), Some(s("/env.sock")), s("/run"), s("Alacritty-:0"));
    assert_eq!(d.step(), Step::Connect(s("/x.sock")));
    assert_eq!(d.report(ConnectOutcome::Refused), None);
    assert_eq!(d.step(), Step::Failed(DiscoveryError::InvalidPath(s("/x.sock"))));
}

#[test]
fn explicit_path_success() {
    let mut d = Discovery::new(Some(s("/x.sock")), None, s("/run"), s("Alacritty-:0"));
    assert_eq!(d.report(ConnectOutcome::Connected), None);
    assert_eq!(d.step(), Step::Found(s("/x.sock")));
}

#[test]
fn environment_then_directory_scan() {
    let mut d = Discovery::new(None, Some(s("/env.sock")), s("/run"), s("Alacritty-:0"));
    assert_eq!(d.step(), Step::Connect(s("/env.sock")));
    assert_eq!(d.report(ConnectOutcome::Refused), None);
    assert_eq!(d.step(), Step::ListDirectory);
    d.listed(names(&["Alacritty-:0-1.sock", "other", "Alacritty-:1-2.sock", "Alacritty-:0-3.sock", "Alacritty-:0-4.sock"]));
    assert_eq!(d.step(), Step::Connect(s("/run/Alacritty-:0-1.sock")));
    assert_eq!(d.report(ConnectOutcome::Refused), Some(s("/run/Alacritty-:0-1.sock")));
    assert_eq!(d.step(), Step::Connect(s("/run/Alacritty-:0-3.sock")));
    assert_eq!(d.report(ConnectOutcome::OtherError), None);
    assert_eq!(d.step(), Step::Connect(s("/run/Alacritty-:0-4.sock")));
    assert_eq!(d.report(ConnectOutcome::Connected), None);
    assert_eq!(d.step(), Step::Found(s("/run/Alacritty-:0-4.sock")));
    // Nothing more happens once the search is over.
    assert_eq!(d.report(ConnectOutcome::Refused), None);
    assert_eq!(d.step(), Step::Found(s("/run/Alacritty-:0-4.sock")));
}

#[test]
fn environment_success_skips_the_scan() {
    let mut d = Discovery::new(None, Some(s("/env.sock")), s("/run"), s("Alacritty-:0"));
    d.report(ConnectOutcome::Connected);
    assert_eq!(d.step(), Step::Found(s("/env.sock")));
}

#[test]
fn nothing_found() {
    let mut d = Discovery::new(None, None, s("/run/"), s("Alacritty-:0"));
    assert_eq!(d.step(), Step::ListDirectory);
    d.listed(names(&["Alacritty-:0-9.sock"]));
    assert_eq!(d.step(), Step::Connect(s("/run/Alacritty-:0-9.sock")));
    assert_eq!(d.report(ConnectOutcome::Refused), Some(s("/run/Alacritty-:0-9.sock")));
    assert_eq!(d.step(), Step::Failed(DiscoveryError::NotFound));
}

#[test]
fn empty_directory() {
    let mut d = Discovery::new(None, None, s("/run"), s("Alacritty-"));
    d.listed(Vec::new());
    assert_eq!(d.step(), Step::Failed(DiscoveryError::NotFound));
    // A second listing is ignored.
    d.listed(names(&["Alacritty--1.sock"]));
    assert_eq!(d.step(), Step::Failed(DiscoveryError::NotFound));
}

#[test]
fn refused_orphan_is_removed_once() {
    let mut d = Discovery::new(None, None, s("/run"), s("A"));
    d.listed(names(&["A-1.sock", "A-2.sock"]));
    let mut removed = Vec::new();
    loop {
        match d.step() {
            Step::Connect(_) => {
                if let Some(p) = d.report(ConnectOutcome::Refused) {
                    removed.push(p);
                }
            },
            Step::Failed(e) => {
                assert_eq!(e, DiscoveryError::NotFound);
                break;
            },
            other => panic!("unexpected {:?}", other),
        }
    }
    assert_eq!(removed, vec![s("/run/A-1.sock"), s("/run/A-2.sock")]);
}
