//! The settings of an import.
use vstd::prelude::*;

use crate::decimal::{
    decimal, law_decimal_by_digits, law_decimal_parses_back, parse_up_to, parsed,
};
use crate::error::{AppError, ErrorView};

verus! {

/// The environment variables that settings come from: the value of each, or
/// why it could not be had.
#[derive(Debug)]
pub struct Environment {
    pub output_dir: Result<String, String>,
    pub download_delay_secs: Result<String, String>,
    pub skip_images: Result<String, String>,
    pub nc_url: Result<String, String>,
    pub nc_username: Result<String, String>,
    pub nc_password: Result<String, String>,
}

/// The settings of an import.
#[derive(Debug)]
pub struct Config {
    pub output_dir: String,
    pub download_delay_secs: u64,
    pub skip_images: bool,
    pub nc_url: String,
    pub nc_user: String,
    pub nc_pass: String,
}

/// What a `Config` holds.
#[verifier::ext_equal]
pub struct ConfigView {
    pub output_dir: Seq<char>,
    pub download_delay_secs: u64,
    pub skip_images: bool,
    pub nc_url: Seq<char>,
    pub nc_user: Seq<char>,
    pub nc_pass: Seq<char>,
}

impl View for Config {
    type V = ConfigView;

    open spec fn view(&self) -> ConfigView {
        ConfigView {
            output_dir: self.output_dir@,
            download_delay_secs: self.download_delay_secs,
            skip_images: self.skip_images,
            nc_url: self.nc_url@,
            nc_user: self.nc_user@,
            nc_pass: self.nc_pass@,
        }
    }
}

/// The value of a variable, or `default` where it has none.
pub open spec fn value_or(var: Result<String, String>, default: Seq<char>) -> Seq<char> {
    match var {
        Ok(value) => value@,
        Err(_) => default,
    }
}

/// The number of seconds that a variable gives: two where it has no value or
/// one that is no number.
pub open spec fn delay_of(var: Result<String, String>) -> nat {
    match parsed(value_or(var, "2"@), u64::MAX as nat) {
        Some(secs) => secs,
        None => 2,
    }
}

/// The first of the variables that have no default and no value either, with
/// why it has none.
pub open spec fn missing(env: Environment) -> Option<Seq<char>> {
    match (env.nc_url, env.nc_username, env.nc_password) {
        (Err(why), _, _) => Some(why@),
        (Ok(_), Err(why), _) => Some(why@),
        (Ok(_), Ok(_), Err(why)) => Some(why@),
        (Ok(_), Ok(_), Ok(_)) => None,
    }
}

/// The settings that the environment gives.
pub open spec fn config_of(env: Environment) -> Result<ConfigView, ErrorView> {
    match missing(env) {
        Some(why) => Err(ErrorView::Config(why)),
        None => Ok(
            ConfigView {
                output_dir: value_or(env.output_dir, "output"@),
                download_delay_secs: delay_of(env.download_delay_secs) as u64,
                skip_images: env.skip_images is Ok,
                nc_url: env.nc_url->Ok_0@,
                nc_user: env.nc_username->Ok_0@,
                nc_pass: env.nc_password->Ok_0@,
            },
        ),
    }
}

impl Config {
    /// The settings that the environment gives. The address, the user name and
    /// the password of the server have no default: the first that is missing,
    /// in this order, is the error.
    pub fn from_env(env: Environment) -> (r: Result<Config, AppError>)
        ensures
            match r {
                Ok(config) => config_of(env) == Ok::<ConfigView, ErrorView>(config@),
                Err(e) => config_of(env) == Err::<ConfigView, ErrorView>(e@),
            },
            r is Ok <==> env.nc_url is Ok && env.nc_username is Ok && env.nc_password is Ok,
            r matches Ok(config) ==> {
                &&& config.skip_images <==> env.skip_images is Ok
                &&& config.nc_url@ == env.nc_url->Ok_0@
                &&& config.nc_user@ == env.nc_username->Ok_0@
                &&& config.nc_pass@ == env.nc_password->Ok_0@
                &&& env.output_dir matches Ok(dir) ==> config.output_dir@ == dir@
                &&& env.output_dir is Err ==> config.output_dir@ == "output"@
            },
    {
        let output_dir = match env.output_dir {
            Ok(dir) => dir,
            Err(_) => "output".to_owned(),
        };
        let delay = match env.download_delay_secs {
            Ok(text) => text,
            Err(_) => "2".to_owned(),
        };
        let download_delay_secs = match parse_up_to(delay.as_str(), u64::MAX) {
            Some(secs) => secs,
            None => 2,
        };
        let skip_images = env.skip_images.is_ok();
        let nc_url = match env.nc_url {
            Ok(url) => url,
            Err(why) => return Err(AppError::Config(why)),
        };
        let nc_user = match env.nc_username {
            Ok(user) => user,
            Err(why) => return Err(AppError::Config(why)),
        };
        let nc_pass = match env.nc_password {
            Ok(pass) => pass,
            Err(why) => return Err(AppError::Config(why)),
        };
        Ok(Config { output_dir, download_delay_secs, skip_images, nc_url, nc_user, nc_pass })
    }
}

/// The settings are accepted where the server's address, the user name and the
/// password are there, and they are taken over as they are. Images are skipped
/// exactly where the variable for it has a value, whatever the value is. The
/// other settings are the values of their variables, or the defaults.
pub proof fn law_settings_are_taken_over(env: Environment)
    ensures
        config_of(env) is Ok <==> env.nc_url is Ok && env.nc_username is Ok && env.nc_password is Ok,
        config_of(env) matches Ok(config) ==> {
            &&& config.skip_images <==> env.skip_images is Ok
            &&& env.nc_url matches Ok(url) && config.nc_url == url@
            &&& env.nc_username matches Ok(user) && config.nc_user == user@
            &&& env.nc_password matches Ok(password) && config.nc_pass == password@
            &&& env.output_dir matches Ok(dir) ==> config.output_dir == dir@
            &&& env.output_dir is Err ==> config.output_dir == "output"@
            &&& env.download_delay_secs is Err ==> config.download_delay_secs == 2
            &&& env.download_delay_secs matches Ok(text) ==> (match parsed(
                text@,
                u64::MAX as nat,
            ) {
                Some(secs) => config.download_delay_secs == secs,
                None => config.download_delay_secs == 2,
            })
        },
{
    reveal_strlit("2");
    assert("2"@ =~= seq!['2']);
    law_decimal_by_digits(0, 2);
    law_decimal_parses_back(2, u64::MAX as nat);
    assert(decimal(2) =~= "2"@);
}

/// What is wrong with the settings is why the first of the three that have no
/// default could not be had.
pub proof fn law_first_missing_setting_is_the_error(env: Environment)
    ensures
        env.nc_url matches Err(why) ==> config_of(env) == Err::<ConfigView, ErrorView>(
            ErrorView::Config(why@),
        ),
        env.nc_url is Ok && env.nc_username is Err ==> config_of(env) == Err::<
            ConfigView,
            ErrorView,
        >(ErrorView::Config(env.nc_username->Err_0@)),
        env.nc_url is Ok && env.nc_username is Ok && env.nc_password is Err ==> config_of(env)
            == Err::<ConfigView, ErrorView>(ErrorView::Config(env.nc_password->Err_0@)),
{
}

/// Settings that differ in one variable alone differ in its setting alone.
pub proof fn law_settings_are_independent(env: Environment, other: Environment)
    requires
        config_of(env) is Ok,
        config_of(other) is Ok,
    ensures
        ({
            let (a, b) = (config_of(env)->Ok_0, config_of(other)->Ok_0);
            &&& env.output_dir == other.output_dir ==> a.output_dir == b.output_dir
            &&& env.download_delay_secs == other.download_delay_secs ==> a.download_delay_secs
                == b.download_delay_secs
            &&& (env.skip_images is Ok) == (other.skip_images is Ok) ==> a.skip_images
                == b.skip_images
            &&& env.nc_url == other.nc_url ==> a.nc_url == b.nc_url
            &&& env.nc_username == other.nc_username ==> a.nc_user == b.nc_user
            &&& env.nc_password == other.nc_password ==> a.nc_pass == b.nc_pass
        }),
{
}

/// Every setting is shown.
pub proof fn law_every_setting_is_shown(config: Config)
    ensures
        config@.output_dir == config.output_dir@,
        config@.download_delay_secs == config.download_delay_secs,
        config@.skip_images == config.skip_images,
        config@.nc_url == config.nc_url@,
        config@.nc_user == config.nc_user@,
        config@.nc_pass == config.nc_pass@,
{
}

} // verus!
