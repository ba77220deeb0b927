use vstd::prelude::*;

verus! {

/// Static configuration: the application identity and the device
/// fleet. Immutable once built.
#[derive(Clone)]
pub struct Config {
    application: String,
    appuser: String,
    hosts: Vec<String>,
}

/// Mathematical image of a [`Config`].
pub struct ConfigView {
    pub application: Seq<char>,
    pub appuser: Seq<char>,
    pub hosts: Seq<Seq<char>>,
}

impl View for Config {
    type V = ConfigView;

    closed spec fn view(&self) -> ConfigView {
        ConfigView {
            application: self.application@,
            appuser: self.appuser@,
            hosts: self.hosts@.map_values(|h: String| h@),
        }
    }
}

impl Config {
    /// Built from already-parsed values; reading and decoding the
    /// configuration file happens outside the library.
    pub fn new(application: String, appuser: String, hosts: Vec<String>) -> (c: Config)
        ensures
            c@.application == application@,
            c@.appuser == appuser@,
            c@.hosts == hosts@.map_values(|h: String| h@),
    {
        Config { application, appuser, hosts }
    }

    /// The configured hosts, or an error when the configuration names
    /// none (and the orchestrator would have nothing to do).
    pub fn get_hosts(&self) -> (r: Result<&Vec<String>, String>)
        ensures
            match r {
                Ok(hs) => self@.hosts.len() > 0 && hs@.map_values(|h: String| h@) == self@.hosts,
                Err(m) => self@.hosts.len() == 0
                    && m@ == "Config did not parse correctly or there are no hosts set in Config.toml"@,
            },
    {
        if self.hosts.len() > 0 {
            Ok(&self.hosts)
        } else {
            Err("Config did not parse correctly or there are no hosts set in Config.toml".to_owned())
        }
    }

    pub fn application(&self) -> (a: &String)
        ensures
            a@ == self@.application,
    {
        &self.application
    }

    pub fn appuser(&self) -> (u: &String)
        ensures
            u@ == self@.appuser,
    {
        &self.appuser
    }
}

} // verus!
