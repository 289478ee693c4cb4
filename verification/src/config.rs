//! Configuration of the whole pipeline.

use vstd::prelude::*;

verus! {

/// What the pipeline is started with.
#[derive(Debug)]
pub struct Config {
    /// The exchange endpoints to connect to.
    pub exchange_endpoints: Vec<String>,
    /// CPU cores assigned to hot paths.
    pub cpu_cores: Vec<usize>,
    /// Window of the moving average, in samples.
    pub ema_window: usize,
    /// Whether synthetic data stands in for the exchanges.
    pub use_mock_data: bool,
}

/// What `validate` finds wrong with a configuration, if anything: the
/// endpoints are looked at before the cores.
pub open spec fn config_fault(endpoints: nat, cores: nat) -> Option<Seq<char>> {
    if endpoints == 0 {
        Some("No exchange endpoints specified"@)
    } else if cores == 0 {
        Some("No CPU cores specified"@)
    } else {
        None
    }
}

impl Config {
    /// Whether the configuration names at least one endpoint and one core.
    pub open spec fn is_valid(&self) -> bool {
        config_fault(self.exchange_endpoints@.len(), self.cpu_cores@.len()) is None
    }

    /// The built-in configuration: one local endpoint, cores 0 and 1, a
    /// window of 20 samples, synthetic data on. Loading it cannot fail.
    pub fn load() -> (result: Result<Config, String>)
        ensures
            result matches Ok(config) && {
                &&& config.exchange_endpoints@.len() == 1
                &&& config.exchange_endpoints@[0]@ == "udp://127.0.0.1:5000"@
                &&& config.cpu_cores@ == seq![0usize, 1usize]
                &&& config.ema_window == 20
                &&& config.use_mock_data
                &&& config.is_valid()
            },
    {
        let mut exchange_endpoints: Vec<String> = Vec::new();
        exchange_endpoints.push("udp://127.0.0.1:5000".to_string());
        let mut cpu_cores: Vec<usize> = Vec::new();
        cpu_cores.push(0);
        cpu_cores.push(1);
        proof {
            assert(cpu_cores@ =~= seq![0usize, 1usize]);
        }
        Ok(Config { exchange_endpoints, cpu_cores, ema_window: 20, use_mock_data: true })
    }

    /// Checks that there is something to connect to and something to run on.
    pub fn validate(&self) -> (result: Result<(), &'static str>)
        ensures
            match config_fault(self.exchange_endpoints@.len(), self.cpu_cores@.len()) {
                Some(text) => result matches Err(message) && message@ == text,
                None => result is Ok,
            },
    {
        if self.exchange_endpoints.len() == 0 {
            return Err("No exchange endpoints specified");
        }
        if self.cpu_cores.len() == 0 {
            return Err("No CPU cores specified");
        }
        Ok(())
    }
}

} // verus!
