use vstd::prelude::*;

verus! {

pub const USERNAME_KEYS: &'static str = "SMTP_USERNAME or SMTP_USER";

pub const PASSWORD_KEYS: &'static str = "SMTP_PASSWORD or SMTP_PASS";

pub const HOST_KEY: &'static str = "SMTP_HOST";

pub const PORT_KEY: &'static str = "SMTP_PORT";

pub const FROM_NAME_KEY: &'static str = "FROM_NAME";

pub const FROM_EMAIL_KEY: &'static str = "FROM_EMAIL";

pub const TO_NAME_KEY: &'static str = "TO_NAME";

pub const TO_EMAIL_KEY: &'static str = "TO_EMAIL";

/// The environment variables that the mail settings come from, as looked up
/// (`None`: not set).
#[derive(Debug)]
pub struct MailEnv {
    pub smtp_username: Option<String>,
    pub smtp_user: Option<String>,
    pub smtp_password: Option<String>,
    pub smtp_pass: Option<String>,
    pub smtp_host: Option<String>,
    pub smtp_port: Option<String>,
    pub from_name: Option<String>,
    pub from_email: Option<String>,
    pub to_name: Option<String>,
    pub to_email: Option<String>,
}

/// Everything needed to deliver the digest.
#[derive(Debug)]
pub struct MailSettings {
    pub username: String,
    pub password: String,
    pub host: String,
    pub port: u16,
    pub from_name: String,
    pub from_email: String,
    pub to_name: String,
    pub to_email: String,
}

/// Why the mail settings are unusable.
#[derive(Debug)]
pub enum ConfigError {
    /// These variables (or pairs of alternatives) are not set.
    Missing(Vec<String>),
    /// The port is not a number from 0 to 65535.
    InvalidPort(String),
    /// A sender or recipient address is not a valid mailbox.
    InvalidAddress(String),
}

pub open spec fn opt_view(v: Option<String>) -> Option<Seq<char>> {
    match v {
        None => None,
        Some(s) => Some(s@),
    }
}

/// The first value that is set, in order.
pub open spec fn first_present(values: Seq<Option<Seq<char>>>) -> Option<Seq<char>>
    decreases values.len(),
{
    if values.len() == 0 {
        None
    } else if values[0] is Some {
        values[0]
    } else {
        first_present(values.skip(1))
    }
}

/// The value of the first variable of `values` that is set, where the
/// variables are alternative names for one setting, looked up in order.
pub fn first_present_env(values: &[Option<String>]) -> (r: Option<String>)
    ensures
        opt_view(r) == first_present(values@.map_values(|v: Option<String>| opt_view(v))),
{
    let ghost vs = values@.map_values(|v: Option<String>| opt_view(v));
    assert(vs.skip(0) =~= vs);
    let mut i: usize = 0;
    while i < values.len()
        invariant
            i <= values@.len(),
            vs == values@.map_values(|v: Option<String>| opt_view(v)),
            first_present(vs) == first_present(vs.skip(i as int)),
        decreases values@.len() - i,
    {
        proof {
            assert(vs.skip(i as int)[0] == vs[i as int]);
            assert(vs.skip(i as int).skip(1) =~= vs.skip(i + 1));
        }
        match &values[i] {
            Some(v) => {
                return Some(v.clone());
            },
            None => {},
        }
        i = i + 1;
    }
    assert(vs.skip(i as int).len() == 0);
    None
}

/// `d` read as a decimal number.
pub open spec fn digits_value(d: Seq<char>) -> nat
    decreases d.len(),
{
    if d.len() == 0 {
        0
    } else {
        digits_value(d.drop_last()) * 10 + ((d.last() as u32) - ('0' as u32)) as nat
    }
}

/// A port number as text: an optional `+`, then one or more ASCII digits
/// whose value is at most 65535.
pub open spec fn port_number(s: Seq<char>) -> Option<u16> {
    let d = if s.len() > 0 && s[0] == '+' {
        s.skip(1)
    } else {
        s
    };
    if d.len() > 0 && (forall|i: int| 0 <= i < d.len() ==> '0' <= #[trigger] d[i] <= '9')
        && digits_value(d) <= 65535 {
        Some(digits_value(d) as u16)
    } else {
        None
    }
}

/// Relies on u16's FromStr (str::parse): it accepts an optional `+` followed
/// by one or more ASCII digits of value at most 65535, and nothing else.
#[verifier::external_body]
fn parse_port(s: &str) -> (r: Option<u16>)
    ensures
        r == port_number(s@),
{
    s.parse::<u16>().ok()
}

pub open spec fn missing_if(value: Option<String>, key: &str) -> Seq<Seq<char>> {
    if value is None {
        seq![key@]
    } else {
        Seq::empty()
    }
}

/// The settings that are not set, in a fixed order; a setting with two names
/// is missing only when both are unset.
pub open spec fn missing_keys(env: MailEnv) -> Seq<Seq<char>> {
    (if env.smtp_username is None && env.smtp_user is None {
        seq![USERNAME_KEYS@]
    } else {
        Seq::empty()
    }) + (if env.smtp_password is None && env.smtp_pass is None {
        seq![PASSWORD_KEYS@]
    } else {
        Seq::empty()
    }) + missing_if(env.smtp_host, HOST_KEY) + missing_if(env.smtp_port, PORT_KEY) + missing_if(
        env.from_name,
        FROM_NAME_KEY,
    ) + missing_if(env.from_email, FROM_EMAIL_KEY) + missing_if(env.to_name, TO_NAME_KEY)
        + missing_if(env.to_email, TO_EMAIL_KEY)
}

pub open spec fn names_view(names: Vec<String>) -> Seq<Seq<char>> {
    names@.map_values(|s: String| s@)
}

fn note_missing(missing: &mut Vec<String>, value: &Option<String>, key: &str)
    ensures
        names_view(*final(missing)) == names_view(*old(missing)) + missing_if(*value, key),
{
    if value.is_none() {
        missing.push(String::from_str(key));
    }
    assert(names_view(*final(missing)) =~= names_view(*old(missing)) + missing_if(*value, key));
}

/// The mail settings from the looked-up variables. Every unset setting is
/// reported at once; only when all are set is the port read.
pub fn mail_settings(env: MailEnv) -> (r: Result<MailSettings, ConfigError>)
    ensures
        missing_keys(env).len() > 0 ==> (r matches Err(ConfigError::Missing(names))
            && names_view(names) == missing_keys(env)),
        missing_keys(env).len() == 0 && port_number(env.smtp_port->0@) is None ==> (r matches Err(
            ConfigError::InvalidPort(p),
        ) && p@ == env.smtp_port->0@),
        missing_keys(env).len() == 0 && port_number(env.smtp_port->0@) is Some ==> (r matches Ok(s)
            && s.port == port_number(env.smtp_port->0@)->0 && s.username@ == first_present(
            seq![opt_view(env.smtp_username), opt_view(env.smtp_user)],
        )->0 && s.password@ == first_present(
            seq![opt_view(env.smtp_password), opt_view(env.smtp_pass)],
        )->0 && s.host@ == env.smtp_host->0@ && s.from_name@ == env.from_name->0@
            && s.from_email@ == env.from_email->0@ && s.to_name@ == env.to_name->0@
            && s.to_email@ == env.to_email->0@),
{
    let ghost e = env;
    let mut missing: Vec<String> = Vec::new();
    if env.smtp_username.is_none() && env.smtp_user.is_none() {
        missing.push(String::from_str(USERNAME_KEYS));
    }
    if env.smtp_password.is_none() && env.smtp_pass.is_none() {
        missing.push(String::from_str(PASSWORD_KEYS));
    }
    assert(names_view(missing) =~= (if e.smtp_username is None && e.smtp_user is None {
        seq![USERNAME_KEYS@]
    } else {
        Seq::empty()
    }) + (if e.smtp_password is None && e.smtp_pass is None {
        seq![PASSWORD_KEYS@]
    } else {
        Seq::empty()
    }));
    note_missing(&mut missing, &env.smtp_host, HOST_KEY);
    note_missing(&mut missing, &env.smtp_port, PORT_KEY);
    note_missing(&mut missing, &env.from_name, FROM_NAME_KEY);
    note_missing(&mut missing, &env.from_email, FROM_EMAIL_KEY);
    note_missing(&mut missing, &env.to_name, TO_NAME_KEY);
    note_missing(&mut missing, &env.to_email, TO_EMAIL_KEY);
    if missing.len() > 0 {
        return Err(ConfigError::Missing(missing));
    }
    assert(names_view(missing).len() == 0);
    assert(missing_keys(e).len() == 0);
    assert(!(e.smtp_username is None && e.smtp_user is None));
    assert(!(e.smtp_password is None && e.smtp_pass is None));
    let MailEnv {
        smtp_username,
        smtp_user,
        smtp_password,
        smtp_pass,
        smtp_host,
        smtp_port,
        from_name,
        from_email,
        to_name,
        to_email,
    } = env;
    let port_text = smtp_port.unwrap();
    let port = match parse_port(port_text.as_str()) {
        None => {
            return Err(ConfigError::InvalidPort(port_text));
        },
        Some(p) => p,
    };
    let user_names = [smtp_username, smtp_user];
    let password_names = [smtp_password, smtp_pass];
    let ghost u = seq![opt_view(e.smtp_username), opt_view(e.smtp_user)];
    let ghost p = seq![opt_view(e.smtp_password), opt_view(e.smtp_pass)];
    assert(user_names@.map_values(|v: Option<String>| opt_view(v)) =~= u);
    assert(password_names@.map_values(|v: Option<String>| opt_view(v)) =~= p);
    let username = first_present_env(user_names.as_slice());
    let password = first_present_env(password_names.as_slice());
    proof {
        assert(u.skip(1) =~= seq![opt_view(e.smtp_user)]);
        assert(p.skip(1) =~= seq![opt_view(e.smtp_pass)]);
        assert(u.skip(1).skip(1).len() == 0);
        assert(p.skip(1).skip(1).len() == 0);
        reveal_with_fuel(first_present, 3);
        assert(first_present(u) is Some);
        assert(first_present(p) is Some);
    }
    Ok(
        MailSettings {
            username: username.unwrap(),
            password: password.unwrap(),
            host: smtp_host.unwrap(),
            port,
            from_name: from_name.unwrap(),
            from_email: from_email.unwrap(),
            to_name: to_name.unwrap(),
            to_email: to_email.unwrap(),
        },
    )
}

pub const ADDRESS_OPEN: &'static str = " <";

pub const ADDRESS_CLOSE: &'static str = ">";

/// A mailbox as text: the display name, then the address in angle brackets.
pub open spec fn mailbox_spec(name: Seq<char>, address: Seq<char>) -> Seq<char> {
    name + ADDRESS_OPEN@ + address + ADDRESS_CLOSE@
}

/// The mailbox text `name <address>`, as a mail header writes it.
pub fn mailbox_text(name: &str, address: &str) -> (r: String)
    ensures
        r@ == mailbox_spec(name@, address@),
{
    let mut text = String::from_str(name);
    text.append(ADDRESS_OPEN);
    text.append(address);
    text.append(ADDRESS_CLOSE);
    text
}

} // verus!
