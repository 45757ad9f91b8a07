//! The settings that the interpreter runs with, and the choice of the file
//! they are read from.

use vstd::prelude::*;
use vstd::string::StringExecFns;
use crate::cpu::{can_fetch, fetched_word, CpuController};
use crate::emulator::Emulator;
use crate::environment::Environment;
use crate::error::Chip8Error;
use crate::instruction::Quirks;

verus! {

/// Why no configuration could be had.
#[derive(Debug, Clone, PartialEq, Eq)]
pub enum ConfigError {
    /// The file could not be read; the field says why.
    FileReadError(String),
    /// The file's template could not be rendered; the field says why.
    TemplateRenderError(String),
    /// The rendered text is no valid configuration; the field says why.
    YamlParseError(String),
    /// None of the candidate files exists.
    NoConfigFileFound,
    /// The process-wide configuration was set before.
    SettingsAlreadyInitialized,
}

impl ConfigError {
    /// The message of the error.
    pub open spec fn message(self) -> Seq<char> {
        match self {
            ConfigError::FileReadError(why) => "Failed to read configuration file: "@ + why@,
            ConfigError::TemplateRenderError(why) => "Failed to render template: "@ + why@,
            ConfigError::YamlParseError(why) => "Failed to parse YAML configuration: "@ + why@,
            ConfigError::NoConfigFileFound => "No configuration file found"@,
            ConfigError::SettingsAlreadyInitialized => "Settings already initialized"@,
        }
    }

    /// The message of the error.
    pub fn to_string(&self) -> (message: String)
        ensures
            message@ == self.message(),
    {
        match self {
            ConfigError::FileReadError(why) => String::from_str(
                "Failed to read configuration file: ",
            ).concat(why.as_str()),
            ConfigError::TemplateRenderError(why) => String::from_str(
                "Failed to render template: ",
            ).concat(why.as_str()),
            ConfigError::YamlParseError(why) => String::from_str(
                "Failed to parse YAML configuration: ",
            ).concat(why.as_str()),
            ConfigError::NoConfigFileFound => String::from_str("No configuration file found"),
            ConfigError::SettingsAlreadyInitialized => String::from_str(
                "Settings already initialized",
            ),
        }
    }
}

/// The settings of the interpreter.
#[derive(Debug, Clone)]
pub struct ChipSettings {
    /// Screen pixels per framebuffer pixel.
    pub scale: u32,
    /// Cycles that run in one frame.
    pub cycles_per_frame: u32,
    /// The folder in which programs are looked for.
    pub default_ch8_folder: String,
    /// Whether the buzzer sounds while the sound timer runs.
    pub st_equals_buzzer: bool,
    /// Whether the shifts 8XY6 and 8XYE shift VY into VX.
    pub bit_shift_instructions_use_vy: bool,
    /// Whether the block transfers FX55 and FX65 move I behind the last byte.
    pub store_read_instructions_change_i: bool,
}

impl ChipSettings {
    /// The quirks that the settings ask for.
    pub open spec fn spec_quirks(&self) -> Quirks {
        Quirks {
            shift_uses_vy: self.bit_shift_instructions_use_vy,
            load_store_advances_i: self.store_read_instructions_change_i,
        }
    }

    /// The quirks that the settings ask for.
    pub fn quirks(&self) -> (quirks: Quirks)
        ensures
            quirks == self.spec_quirks(),
    {
        Quirks {
            shift_uses_vy: self.bit_shift_instructions_use_vy,
            load_store_advances_i: self.store_read_instructions_change_i,
        }
    }

    /// A processor for `emulator` that runs with these settings; a program
    /// counter at which no instruction can be fetched is an index fault.
    pub fn processor(&self, emulator: &Emulator) -> (res: Result<CpuController, Chip8Error>)
        ensures
            match res {
                Ok(cpu) => {
                    &&& can_fetch(emulator@)
                    &&& cpu.spec_word() == fetched_word(emulator@)
                    &&& cpu.spec_cycles_per_frame() == self.cycles_per_frame
                    &&& cpu.spec_quirks() == self.spec_quirks()
                },
                Err(e) => !can_fetch(emulator@) && e == Chip8Error::IndexFault,
            },
    {
        CpuController::new(
            emulator,
            self.cycles_per_frame,
            self.bit_shift_instructions_use_vy,
            self.store_read_instructions_change_i,
        )
    }

    /// Whether the buzzer is to sound when the sound timer holds `st`: while
    /// the timer runs, if the settings tie the buzzer to it, else never.
    pub fn buzzer_for(&self, st: u8) -> (on: bool)
        ensures
            on == (self.st_equals_buzzer && st > 0),
    {
        self.st_equals_buzzer && st > 0
    }
}

/// The name of the file that holds the local overrides of an environment.
pub open spec fn local_file_name(env: Environment) -> Seq<char> {
    env.name() + ".local.yaml"@
}

/// The name of the file that holds the settings of an environment.
pub open spec fn shared_file_name(env: Environment) -> Seq<char> {
    env.name() + ".yaml"@
}

/// The two files in which the settings of `env` are looked for, in order of
/// preference: the local overrides, then the shared file.
pub fn config_file_candidates(env: &Environment) -> (files: (String, String))
    ensures
        files.0@ == local_file_name(*env),
        files.1@ == shared_file_name(*env),
{
    (env.to_string().concat(".local.yaml"), env.to_string().concat(".yaml"))
}

/// The file to read the settings of `env` from, given which of the two
/// candidates exist: the local overrides if they exist, else the shared
/// file if it exists, else an error.
pub fn select_config_file(env: &Environment, local_exists: bool, shared_exists: bool) -> (res:
    Result<String, ConfigError>)
    ensures
        local_exists ==> (res matches Ok(file) && file@ == local_file_name(*env)),
        !local_exists && shared_exists ==> (res matches Ok(file) && file@ == shared_file_name(
            *env,
        )),
        !local_exists && !shared_exists ==> (res matches Err(e) && e is NoConfigFileFound),
{
    let files: (String, String) = config_file_candidates(env);
    if local_exists {
        Ok(files.0)
    } else if shared_exists {
        Ok(files.1)
    } else {
        Err(ConfigError::NoConfigFileFound)
    }
}

} // verus!
