//! The process-wide settings: the root directories, fixed once at start.
use crate::error::Error;
use crate::paths::{join_path, spec_join_path};
use crate::text::{decimal_text, domain_matches, int_text, join_text, regex_is_match};
use vstd::prelude::*;

verus! {

/// The settings of the process: where jobs keep their files, and how the
/// server is reached.
#[derive(Debug, Clone)]
pub struct Env {
    pub domain: String,
    pub port: u16,
    pub tasker_root: String,
    pub meta_dir: String,
    pub meta_file: String,
    pub trash_dir: String,
    pub task_dir: String,
    pub out_dir: String,
    pub pk_dir: Option<String>,
    pub crt_dir: Option<String>,
    pub user_name: String,
    pub password: String,
}

/// The directories of an environment lie under its root.
pub open spec fn env_wf(e: Env) -> bool {
    &&& e.meta_dir@ == spec_join_path(e.tasker_root@, "meta"@)
    &&& e.task_dir@ == spec_join_path(e.tasker_root@, "tasks"@)
    &&& e.trash_dir@ == spec_join_path(e.tasker_root@, "trash"@)
    &&& e.out_dir@ == spec_join_path(e.tasker_root@, "out"@)
    &&& e.meta_file@ == spec_join_path(e.meta_dir@, "tasker.meta"@)
}

/// The folder where launchd looks for job descriptors.
pub open spec fn plist_folder() -> Seq<char> {
    "/Library/LaunchDaemons/"@
}

pub open spec fn spec_plist_path(label: Seq<char>) -> Seq<char> {
    spec_join_path(plist_folder(), label + ".plist"@)
}

pub open spec fn spec_meta_yaml(e: Env, label: Seq<char>) -> Seq<char> {
    spec_join_path(e.meta_dir@, label + ".yaml"@)
}

/// The path of the descriptor of the job `label`.
pub fn get_plist_path(label_name: &str) -> (r: String)
    ensures
        r@ == spec_plist_path(label_name@),
{
    let file = join_text(label_name, ".plist");
    join_path("/Library/LaunchDaemons/", file.as_str())
}

impl Env {
    /// The host name itself when it is dot-separated runs of 1 to 63 letters
    /// and digits; else an error.
    pub fn check_domain_name(domain: &str) -> (r: Result<(), Error>)
        ensures
            r is Ok <==> domain_matches(domain@),
            r is Err ==> r->Err_0 is IllegalDomainName,
    {
        if regex_is_match("^[A-Za-z0-9]{1,63}(\\.[A-Za-z0-9]{1,63})*$", domain) {
            Ok(())
        } else {
            let mut m = join_text("'", domain);
            m.append("' is illegal.");
            Err(Error::IllegalDomainName(m))
        }
    }

    /// The settings for a root directory and a server address. The host name
    /// must be dot-separated runs of 1 to 63 letters and digits, the port at
    /// most 65353, the user name at least 5 characters and the password at
    /// least 12.
    pub fn new(
        tasker_root: &str,
        domain: &str,
        port: u16,
        user_name: &str,
        password: &str,
        pk_dir: Option<String>,
        crt_dir: Option<String>,
    ) -> (r: Result<Env, Error>)
        ensures
            r is Ok <==> domain_matches(domain@) && port <= 65353 && user_name@.len() >= 5
                && password@.len() >= 12,
            r is Ok ==> env_wf(r->Ok_0) && r->Ok_0.tasker_root@ == tasker_root@ && r->Ok_0.domain@
                == domain@ && r->Ok_0.port == port,
            !domain_matches(domain@) ==> r is Err && r->Err_0 is IllegalDomainName,
    {
        match Env::check_domain_name(domain) {
            Err(e) => return Err(e),
            Ok(()) => {},
        }
        if port > 65353 {
            return Err(Error::IllegalDomainName("port number out of range".to_owned()));
        }
        if user_name.unicode_len() < 5 {
            return Err(Error::IllegalDomainName("USER_NAME must be at least 5 characters".to_owned()));
        }
        if password.unicode_len() < 12 {
            return Err(Error::IllegalDomainName("PASSWORD must be at least 12 characters".to_owned()));
        }
        let meta_dir = join_path(tasker_root, "meta");
        let meta_file = join_path(meta_dir.as_str(), "tasker.meta");
        Ok(Env {
            domain: domain.to_owned(),
            port,
            tasker_root: tasker_root.to_owned(),
            meta_dir,
            meta_file,
            trash_dir: join_path(tasker_root, "trash"),
            task_dir: join_path(tasker_root, "tasks"),
            out_dir: join_path(tasker_root, "out"),
            pk_dir,
            crt_dir,
            user_name: user_name.to_owned(),
            password: password.to_owned(),
        })
    }

    /// The address the server binds: `domain:port`.
    pub fn address(&self) -> (r: String)
        ensures
            r@ == self.domain@ + ":"@ + decimal_text(self.port as int),
    {
        let mut r = join_text(self.domain.as_str(), ":");
        r.append(int_text(self.port as i64).as_str());
        r
    }

    /// The directory of the job's working files.
    pub fn get_task_folder_name(&self, label_name: &str) -> (r: String)
        ensures
            r@ == spec_join_path(self.task_dir@, label_name@),
    {
        join_path(self.task_dir.as_str(), label_name)
    }

    /// The directory of the job's redirected output.
    pub fn get_output_folder_name(&self, label_name: &str) -> (r: String)
        ensures
            r@ == spec_join_path(self.out_dir@, label_name@),
    {
        join_path(self.out_dir.as_str(), label_name)
    }

    /// The directory that the job's files are moved to when it is deleted.
    pub fn get_trash_folder_name(&self, label_name: &str) -> (r: String)
        ensures
            r@ == spec_join_path(self.trash_dir@, label_name@),
    {
        join_path(self.trash_dir.as_str(), label_name)
    }

    /// The canonical declarative text of the job.
    pub fn get_meta_yaml(&self, label_name: &str) -> (r: String)
        ensures
            r@ == spec_meta_yaml(*self, label_name@),
    {
        let file = join_text(label_name, ".yaml");
        join_path(self.meta_dir.as_str(), file.as_str())
    }
}

} // verus!
