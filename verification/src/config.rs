//! Formatter configuration: the two scalar settings that drive the layout
//! engine (maximum line width and indentation unit), and the session that
//! carries them together with the list of files to format.
use vstd::prelude::*;

verus! {

/// An explicit, typed configuration error, reported at construction time.
#[derive(Clone, Copy, Debug, PartialEq, Eq, Structural)]
pub enum ConfigError {
    /// The indentation unit was zero; it must be at least one column.
    ZeroIndentSize,
}

impl ConfigError {
    /// A human-readable description of the error.
    pub fn message(&self) -> (r: &'static str)
        ensures
            r@ == "indent_size must be greater than 0"@,
    {
        "indent_size must be greater than 0"
    }
}

/// The two scalar settings consumed by the layout engine.
#[derive(Clone, Copy, Debug)]
pub struct Config {
    pub max_width: usize,
    pub indent_size: usize,
}

fn default_max_width() -> (r: usize)
    ensures
        r == 80,
{
    80
}

fn default_indent_size() -> (r: usize)
    ensures
        r == 2,
{
    2
}

impl Default for Config {
    /// The default configuration: 80 columns wide, 2 columns per indent level.
    fn default() -> (r: Self)
        ensures
            r.max_width == 80,
            r.indent_size == 2,
    {
        Self { max_width: default_max_width(), indent_size: default_indent_size() }
    }
}

impl Config {
    /// A configuration with the given width budget and the default indent unit.
    pub fn new(max_width: usize) -> (r: Self)
        ensures
            r.max_width == max_width,
            r.indent_size == 2,
    {
        Self { max_width, indent_size: 2 }
    }

    pub fn max_width(&self) -> (r: usize)
        ensures
            r == self.max_width,
    {
        self.max_width
    }

    pub fn indent_size(&self) -> (r: usize)
        ensures
            r == self.indent_size,
    {
        self.indent_size
    }
}

/// A formatting session: one configuration applied to a list of source files.
#[derive(Clone, Debug)]
pub struct Session {
    pub config: Config,
    pub source_files: Vec<String>,
}

impl Session {
    pub fn new(config: Config, source_files: Vec<String>) -> (r: Self)
        ensures
            r.config == config,
            r.source_files == source_files,
    {
        Self { config, source_files }
    }

    pub fn config(&self) -> (r: &Config)
        ensures
            r == &self.config,
    {
        &self.config
    }

    pub fn source_files(&self) -> (r: &Vec<String>)
        ensures
            r == &self.source_files,
    {
        &self.source_files
    }

    /// Builds a session from an already-loaded configuration, falling back to
    /// the default configuration when none was supplied. A configuration whose
    /// indentation unit is zero is rejected here, before any rendering starts.
    pub fn create_from_config(config: Option<Config>, source_files: Vec<String>) -> (r: Result<
        Session,
        ConfigError,
    >)
        ensures
            match config {
                Some(c) => if c.indent_size == 0 {
                    r == Result::<Session, ConfigError>::Err(ConfigError::ZeroIndentSize)
                } else {
                    r matches Ok(s) && s.config == c && s.source_files == source_files
                },
                None => r matches Ok(s) && s.config.max_width == 80 && s.config.indent_size == 2
                    && s.source_files == source_files,
            },
    {
        let config = match config {
            Some(c) => {
                if c.indent_size == 0 {
                    return Err(ConfigError::ZeroIndentSize);
                }
                c
            },
            None => Config::default(),
        };
        Ok(Session::new(config, source_files))
    }
}

} // verus!
