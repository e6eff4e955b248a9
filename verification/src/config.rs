//! The configuration model: projects, their launchable services, and
//! the lookup the supervisor uses to resolve a (project, service)
//! pair.  Loading and saving the file is the surrounding
//! application's work; this module only models and queries the data.

use vstd::prelude::*;

use crate::text::{concat2, str_equal};

verus! {

/// One launchable service of a project.
#[derive(Debug, Clone)]
pub struct Service {
    pub id: String,
    pub name: String,
    pub path: String,
    pub command: String,
    pub detect_url: bool,
}

/// One project: an id, a display name, and its services.
#[derive(Debug, Clone)]
pub struct Project {
    pub id: String,
    pub name: String,
    pub services: Vec<Service>,
}

/// The whole configuration.
#[derive(Debug, Clone)]
pub struct Config {
    pub version: u32,
    pub active_project: Option<String>,
    pub projects: Vec<Project>,
}

impl Default for Config {
    /// An empty configuration at the current format version.
    fn default() -> (r: Self)
        ensures
            r.version == 1,
            r.active_project is None,
            r.projects@.len() == 0,
    {
        Config { version: 1, active_project: None, projects: Vec::new() }
    }
}

/// The first project with the given id, if any.
pub open spec fn find_project(ps: Seq<Project>, id: Seq<char>) -> Option<Project>
    decreases ps.len(),
{
    if ps.len() == 0 {
        None
    } else if ps[0].id@ == id {
        Some(ps[0])
    } else {
        find_project(ps.drop_first(), id)
    }
}

/// The first service with the given id, if any.
pub open spec fn find_service_in(ss: Seq<Service>, id: Seq<char>) -> Option<Service>
    decreases ss.len(),
{
    if ss.len() == 0 {
        None
    } else if ss[0].id@ == id {
        Some(ss[0])
    } else {
        find_service_in(ss.drop_first(), id)
    }
}

impl Config {
    /// Looks a project up by id; the first match wins.
    pub fn get_project(&self, project_id: &str) -> (r: Option<&Project>)
        ensures
            match r {
                Some(p) => find_project(self.projects@, project_id@) == Some(*p),
                None => find_project(self.projects@, project_id@) is None,
            },
    {
        let ghost ps = self.projects@;
        let mut i: usize = 0;
        proof {
            assert(ps.skip(0) =~= ps);
        }
        while i < self.projects.len()
            invariant
                i <= ps.len(),
                ps == self.projects@,
                find_project(ps, project_id@) == find_project(ps.skip(i as int), project_id@),
            decreases ps.len() - i,
        {
            proof {
                assert(ps.skip(i as int)[0] == ps[i as int]);
                assert(ps.skip(i as int).drop_first() =~= ps.skip(i as int + 1));
            }
            if str_equal(self.projects[i].id.as_str(), project_id) {
                return Some(&self.projects[i]);
            }
            i = i + 1;
        }
        proof {
            assert(ps.skip(i as int) =~= Seq::<Project>::empty());
        }
        None
    }

    /// Looks a service up by project and service id; the first match
    /// in the first matching project wins.
    pub fn get_service(&self, project_id: &str, service_id: &str) -> (r: Option<&Service>)
        ensures
            match r {
                Some(s) => exists|p: Project|
                    find_project(self.projects@, project_id@) == Some(p) && #[trigger] find_service_in(
                        p.services@,
                        service_id@,
                    ) == Some(*s),
                None => match find_project(self.projects@, project_id@) {
                    None => true,
                    Some(p) => find_service_in(p.services@, service_id@) is None,
                },
            },
    {
        let p = match self.get_project(project_id) {
            Some(p) => p,
            None => {
                return None;
            },
        };
        let ghost ss = p.services@;
        let mut i: usize = 0;
        proof {
            assert(ss.skip(0) =~= ss);
        }
        while i < p.services.len()
            invariant
                i <= ss.len(),
                ss == p.services@,
                find_project(self.projects@, project_id@) == Some(*p),
                find_service_in(ss, service_id@) == find_service_in(
                    ss.skip(i as int),
                    service_id@,
                ),
            decreases ss.len() - i,
        {
            proof {
                assert(ss.skip(i as int)[0] == ss[i as int]);
                assert(ss.skip(i as int).drop_first() =~= ss.skip(i as int + 1));
            }
            if str_equal(p.services[i].id.as_str(), service_id) {
                return Some(&p.services[i]);
            }
            i = i + 1;
        }
        proof {
            assert(ss.skip(i as int) =~= Seq::<Service>::empty());
        }
        None
    }
}

/// The directory the configuration lives in, under a home directory.
pub open spec fn config_dir_of(home: Seq<char>) -> Seq<char> {
    home + "/.dev-stack-launcher"@
}

/// The configuration file's path, under a home directory.
pub open spec fn config_path_of(home: Seq<char>) -> Seq<char> {
    config_dir_of(home) + "/config.json"@
}

/// Relies on `dirs::home_dir`: the user's home directory, if the
/// platform reports one, as a string.
#[verifier::external_body]
fn home_dir_string() -> (r: Option<String>) {
    dirs::home_dir().map(|p| p.to_string_lossy().into_owned())
}

/// The directory the configuration lives in: `.dev-stack-launcher`
/// under the user's home directory, when the platform reports one.
pub fn get_config_dir() -> (r: Option<String>)
    ensures
        r matches Some(d) ==> exists|h: Seq<char>| d@ == #[trigger] config_dir_of(h),
{
    match home_dir_string() {
        Some(h) => {
            let d = concat2(h.as_str(), "/.dev-stack-launcher");
            proof {
                assert(d@ == config_dir_of(h@));
            }
            Some(d)
        },
        None => None,
    }
}

/// The configuration file's path: `config.json` in the configuration
/// directory, when the platform reports a home directory.
pub fn get_config_path() -> (r: Option<String>)
    ensures
        r matches Some(p) ==> exists|h: Seq<char>| p@ == #[trigger] config_path_of(h),
{
    match get_config_dir() {
        Some(d) => {
            let p = concat2(d.as_str(), "/config.json");
            proof {
                let h = choose|h: Seq<char>| d@ == #[trigger] config_dir_of(h);
                assert(p@ == config_path_of(h));
            }
            Some(p)
        },
        None => None,
    }
}

} // verus!
