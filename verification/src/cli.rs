//! The commands of the program.
use crate::config::{Acceleration, Config, ConfigModel, Provider};
use crate::model::Action;
use crate::text;
use crate::text::joined;
use vstd::prelude::*;

verus! {

/// A command.
#[derive(Clone, Copy, Debug, PartialEq, Eq, Structural)]
pub enum Command {
    Tray,
    Tui { no_tray: bool },
    Daemon,
    Start,
    Stop,
    Toggle,
    Copy,
    CopyLatest,
    Clear,
    Cancel,
    Retry,
    Status,
    Shutdown,
    Devices,
    Doctor,
}

/// What a command asks the recorder for, if it asks it for anything.
pub open spec fn asked(command: Command) -> Option<Action<Seq<char>>> {
    match command {
        Command::Start => Some(Action::Start),
        Command::Stop => Some(Action::Stop),
        Command::Toggle => Some(Action::Toggle),
        Command::Copy => Some(Action::Copy),
        Command::CopyLatest => Some(Action::CopyLatest),
        Command::Clear => Some(Action::Clear),
        Command::Cancel => Some(Action::Cancel),
        Command::Retry => Some(Action::Retry),
        Command::Status => Some(Action::Status),
        Command::Shutdown => Some(Action::Shutdown),
        _ => None,
    }
}

impl Command {
    /// What it asks the recorder for, if it asks it for anything.
    pub fn action(self) -> (action: Option<Action>)
        ensures
            action.deep_view() == asked(self),
    {
        match self {
            Command::Start => Some(Action::Start),
            Command::Stop => Some(Action::Stop),
            Command::Toggle => Some(Action::Toggle),
            Command::Copy => Some(Action::Copy),
            Command::CopyLatest => Some(Action::CopyLatest),
            Command::Clear => Some(Action::Clear),
            Command::Cancel => Some(Action::Cancel),
            Command::Retry => Some(Action::Retry),
            Command::Status => Some(Action::Status),
            Command::Shutdown => Some(Action::Shutdown),
            _ => None,
        }
    }
}

/// The name of a provider.
pub open spec fn provider_name(provider: Provider) -> Seq<char> {
    match provider {
        Provider::Local => "Local"@,
        Provider::OpenAi => "OpenAi"@,
    }
}

/// The name of an acceleration.
pub open spec fn acceleration_name(acceleration: Acceleration) -> Seq<char> {
    match acceleration {
        Acceleration::Auto => "Auto"@,
        Acceleration::Cpu => "Cpu"@,
        Acceleration::Vulkan => "Vulkan"@,
    }
}

/// What is said of a configuration that works, with the microphones that there are.
pub open spec fn report_of(config: ConfigModel, devices: Seq<Seq<char>>) -> Seq<char> {
    "Provider: "@ + provider_name(config.provider) + "\nAcceleration: "@ + acceleration_name(
        config.acceleration,
    ) + "\nWhisper: "@ + config.binary + "\nModel: "@ + config.model + "\nState: "@
        + config.directory + "\nMicrophones: "@ + joined(devices, ", "@)
}

/// What is said of a configuration that works, with the microphones that there are.
pub fn doctor_report(config: &Config, devices: &Vec<String>) -> (words: String)
    ensures
        words@ == report_of(config.deep_view(), devices.deep_view()),
{
    let mut words = "Provider: ".to_owned();
    words.append(
        match config.provider {
            Provider::Local => "Local",
            Provider::OpenAi => "OpenAi",
        },
    );
    words.append("\nAcceleration: ");
    words.append(
        match config.acceleration {
            Acceleration::Auto => "Auto",
            Acceleration::Cpu => "Cpu",
            Acceleration::Vulkan => "Vulkan",
        },
    );
    words.append("\nWhisper: ");
    words.append(config.binary.as_str());
    words.append("\nModel: ");
    words.append(config.model.as_str());
    words.append("\nState: ");
    words.append(config.directory.as_str());
    words.append("\nMicrophones: ");
    words.append(text::join_pieces(devices, ", ").as_str());
    words
}

} // verus!
