use vstd::prelude::*;

verus! {

/// The settings of one resource ("phase"): its name, how many holders may
/// use it at once, and the two timeouts (in seconds) that govern reclaiming.
pub struct PhaseConfig {
    pub name: String,
    pub concurrent_limit: u64,
    pub dead_timeout: u64,
    pub check_timeout: u64,
}

/// The scheduler's settings: the resources it manages.
pub struct Config {
    pub phases: Vec<PhaseConfig>,
}

/// The settings of a resource as plain values.
pub ghost struct PhaseSpec {
    pub name: Seq<char>,
    pub concurrent_limit: u64,
    pub dead_timeout: u64,
    pub check_timeout: u64,
}

impl PhaseConfig {
    pub open spec fn spec(&self) -> PhaseSpec {
        PhaseSpec {
            name: self.name@,
            concurrent_limit: self.concurrent_limit,
            dead_timeout: self.dead_timeout,
            check_timeout: self.check_timeout,
        }
    }
}

/// The resources of the settings used when no configuration can be loaded.
pub open spec fn default_phases() -> Seq<PhaseSpec> {
    seq![
        PhaseSpec { name: "P1"@, concurrent_limit: 2, check_timeout: 8, dead_timeout: 20 },
        PhaseSpec { name: "P2"@, concurrent_limit: 1, check_timeout: 1000, dead_timeout: 1000 },
        PhaseSpec { name: "C1"@, concurrent_limit: 1, check_timeout: 1000, dead_timeout: 1000 },
        PhaseSpec { name: "C2"@, concurrent_limit: 1, check_timeout: 1000, dead_timeout: 1000 },
    ]
}

impl Config {
    /// The resources of these settings as plain values.
    pub open spec fn phase_specs(&self) -> Seq<PhaseSpec> {
        self.phases@.map_values(|p: PhaseConfig| p.spec())
    }
}

fn phase(name: &str, concurrent_limit: u64, check_timeout: u64, dead_timeout: u64) -> (p: PhaseConfig)
    ensures
        p.spec() == (PhaseSpec { name: name@, concurrent_limit, check_timeout, dead_timeout }),
{
    PhaseConfig { name: name.to_owned(), concurrent_limit, check_timeout, dead_timeout }
}

impl core::default::Default for Config {
    fn default() -> (c: Self)
        ensures
            c.phase_specs() == default_phases(),
    {
        let p1 = phase("P1", 2, 8, 20);
        let p2 = phase("P2", 1, 1000, 1000);
        let c1 = phase("C1", 1, 1000, 1000);
        let c2 = phase("C2", 1, 1000, 1000);
        let phases = vec![p1, p2, c1, c2];
        let c = Config { phases };
        assert(c.phase_specs() =~= default_phases());
        c
    }
}

} // verus!
