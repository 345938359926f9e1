//! Where a device keeps its certificate and its trust stores.
use vstd::prelude::*;

verus! {

/// A place in the file system: names below a base, from the outside in.
pub struct Location<T> {
    pub base: T,
    pub below: Vec<&'static str>,
}

/// The names below the base, as text.
pub open spec fn names<T>(l: Location<T>) -> Seq<Seq<char>> {
    l.below@.map_values(|s: &'static str| s@)
}

/// No environment variable says where the files are.
#[derive(Clone, Copy, Debug, PartialEq, Eq, Structural)]
pub struct NoConfigDir;

impl NoConfigDir {
    /// The error as text.
    pub fn message(&self) -> (r: &'static str)
        ensures
            r@
                == "neither $TETHER_CERT_DIR nor $HOME/$USERPROFILE is set; can't choose a config directory"@,
    {
        "neither $TETHER_CERT_DIR nor $HOME/$USERPROFILE is set; can't choose a config directory"
    }
}

/// The directory: the one that `TETHER_CERT_DIR` names, or else `.tether` in `HOME`, or else in
/// `USERPROFILE`.
pub open spec fn config_place<T>(
    cert_dir: Option<T>,
    home: Option<T>,
    user_profile: Option<T>,
) -> Option<(T, Seq<Seq<char>>)> {
    match (cert_dir, home, user_profile) {
        (Some(dir), _, _) => Some((dir, Seq::empty())),
        (None, Some(dir), _) => Some((dir, seq![".tether"@])),
        (None, None, Some(dir)) => Some((dir, seq![".tether"@])),
        (None, None, None) => None,
    }
}

/// The directory of the certificate and the trust stores, by the values of the environment
/// variables `TETHER_CERT_DIR`, `HOME` and `USERPROFILE`.
pub fn config_dir<T>(cert_dir: Option<T>, home: Option<T>, user_profile: Option<T>) -> (r: Result<
    Location<T>,
    NoConfigDir,
>)
    ensures
        match r {
            Ok(l) => config_place(cert_dir, home, user_profile) == Some((l.base, names(l))),
            Err(_) => config_place(cert_dir, home, user_profile) is None,
        },
{
    match cert_dir {
        Some(base) => {
            let l = Location { base, below: Vec::new() };
            assert(names(l) == Seq::<Seq<char>>::empty());
            Ok(l)
        },
        None => {
            let dir: Option<T> = match home {
                Some(dir) => Some(dir),
                None => user_profile,
            };
            match dir {
                Some(base) => {
                    let below: Vec<&'static str> = vec![".tether"];
                    let l = Location { base, below };
                    assert(names(l) == seq![".tether"@]);
                    Ok(l)
                },
                None => Err(NoConfigDir),
            }
        },
    }
}

/// The client's file of known hosts, in that directory.
pub fn known_hosts_path<T>(
    cert_dir: Option<T>,
    home: Option<T>,
    user_profile: Option<T>,
) -> (r: Result<Location<T>, NoConfigDir>)
    ensures
        match r {
            Ok(l) => config_place(cert_dir, home, user_profile) matches Some(place) && l.base
                == place.0 && names(l) == place.1.push("known_hosts.json"@),
            Err(_) => config_place(cert_dir, home, user_profile) is None,
        },
{
    match config_dir(cert_dir, home, user_profile) {
        Ok(dir) => {
            let mut below: Vec<&'static str> = dir.below;
            let ghost outer = below@;
            below.push("known_hosts.json");
            let l = Location { base: dir.base, below };
            assert(names(l) == outer.map_values(|s: &'static str| s@).push("known_hosts.json"@));
            Ok(l)
        },
        Err(e) => Err(e),
    }
}

/// The directory that is named outright comes before the home directory, and that before the
/// profile; what comes later makes no difference. Files lie in the named directory itself, or in
/// one name below the other two.
pub proof fn the_first_variable_decides<T>(
    cert_dir: Option<T>,
    home: Option<T>,
    user_profile: Option<T>,
    other_home: Option<T>,
    other_profile: Option<T>,
)
    ensures
        config_place(cert_dir, home, user_profile) is None <==> cert_dir is None && home is None
            && user_profile is None,
        cert_dir matches Some(dir) ==> {
            &&& config_place(cert_dir, home, user_profile) matches Some(p) && p.0 == dir && p.1.len()
                == 0
            &&& config_place(cert_dir, home, user_profile) == config_place(
                cert_dir,
                other_home,
                other_profile,
            )
        },
        cert_dir is None && home is Some ==> {
            &&& config_place(cert_dir, home, user_profile) matches Some(p) && p.0 == home->0
                && p.1.len() == 1
            &&& config_place(cert_dir, home, user_profile) == config_place(
                cert_dir,
                home,
                other_profile,
            )
        },
        cert_dir is None && home is None ==> config_place(cert_dir, home, user_profile)
            == config_place(cert_dir, user_profile, home),
        config_place(cert_dir, home, user_profile) matches Some(p) ==> forall|i: int|
            0 <= i < p.1.len() ==> #[trigger] p.1[i] == ".tether"@,
{
}

} // verus!
