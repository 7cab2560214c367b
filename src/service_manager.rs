use vstd::prelude::*;
use vstd::string::StringExecFns;

verus! {

/// The systemd unit of the controller, running `binary_path`, with `home` as
/// the user's home directory.
pub open spec fn service_unit(binary_path: Seq<char>, home: Seq<char>) -> Seq<char> {
    UNIT_HEAD@ + binary_path + UNIT_MIDDLE@ + home + UNIT_TAIL@
}

pub const UNIT_HEAD: &'static str = "[Unit]
Description=Elgato Stream Deck Pedal Controller
Documentation=https://github.com/funnierinspanish/elgato-pedal-controller-linux
After=graphical-session.target
Wants=graphical-session.target

[Service]
Type=simple
ExecStart=";

pub const UNIT_MIDDLE: &'static str = " run
Restart=on-failure
RestartSec=5
Environment=DISPLAY=:0

# Security settings
NoNewPrivileges=true
PrivateTmp=true
ProtectSystem=strict
ProtectHome=false
ReadWritePaths=";

pub const UNIT_TAIL: &'static str = "/.config

[Install]
WantedBy=graphical-session.target
";

/// Names of the installed binary and of its systemd service.
pub struct ServiceManager {
    binary_name: String,
    service_name: String,
}

impl ServiceManager {
    pub closed spec fn spec_binary_name(&self) -> Seq<char> {
        self.binary_name@
    }

    pub closed spec fn spec_service_name(&self) -> Seq<char> {
        self.service_name@
    }

    pub fn new() -> (r: Self)
        ensures
            r.spec_binary_name() == "elgato-pedal-controller"@,
            r.spec_service_name() == "elgato-pedal-controller"@,
    {
        ServiceManager {
            binary_name: "elgato-pedal-controller".to_owned(),
            service_name: "elgato-pedal-controller".to_owned(),
        }
    }

    pub fn binary_name(&self) -> (r: &str)
        ensures
            r@ == self.spec_binary_name(),
    {
        self.binary_name.as_str()
    }

    pub fn service_name(&self) -> (r: &str)
        ensures
            r@ == self.spec_service_name(),
    {
        self.service_name.as_str()
    }

    /// The unit file text for a binary installed at `binary_path`.
    pub fn generate_service_file(&self, binary_path: &str, home: &str) -> (r: String)
        ensures
            r@ == service_unit(binary_path@, home@),
    {
        let mut text = UNIT_HEAD.to_owned();
        text.append(binary_path);
        text.append(UNIT_MIDDLE);
        text.append(home);
        text.append(UNIT_TAIL);
        text
    }
    /// The directory for the unit file: the system directory, or the user's
    /// under `home`.
    pub fn get_service_directory(&self, system_wide: bool, home: &str) -> (r: String)
        ensures
            r@ == (if system_wide {
                "/etc/systemd/system"@
            } else {
                home@ + "/.config/systemd/user"@
            }),
    {
        if system_wide {
            "/etc/systemd/system".to_owned()
        } else {
            let mut dir = home.to_owned();
            dir.append("/.config/systemd/user");
            dir
        }
    }
}

} // verus!
