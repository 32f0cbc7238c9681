//! The backend process: how it is started, awaited and stopped.

use vstd::prelude::*;

use crate::config;
use crate::config::ConfigValue;
use crate::strings;
use crate::text;

verus! {

/// How the web interface is started.
#[derive(Clone, Debug)]
pub struct WebuiLaunchConfig {
    pub host: String,
    pub port: u16,
    pub password: Option<String>,
    pub cdn: bool,
    pub ssl_key: Option<String>,
    pub ssl_cert: Option<String>,
    pub run: Vec<String>,
}

/// The setting `key` of the web interface.
pub open spec fn webui_value(config: Option<ConfigValue>, key: Seq<char>) -> Option<ConfigValue> {
    config::deploy_value(config, "Webui"@, key)
}

/// The text of the setting `key`, unless it is blank.
pub open spec fn webui_text(config: Option<ConfigValue>, key: Seq<char>) -> Option<Seq<char>> {
    match webui_value(config, key) {
        Some(value) => config::unless_blank(config::text_of(value)),
        None => None,
    }
}

fn webui_string(config: Option<&ConfigValue>, key: &str) -> (r: Option<String>)
    ensures
        text::view_of(r) == webui_text(config::target(config), key@),
{
    match config::find_deploy_value(config, "Webui", key) {
        Some(value) => config::without_blank(config::value_as_string(value)),
        None => None,
    }
}

/// The switch `switch`, and behind it the value, if there is one.
pub open spec fn option_args(switch: Seq<char>, value: Option<Seq<char>>) -> Seq<Seq<char>> {
    match value {
        Some(v) => seq![switch, v],
        None => Seq::empty(),
    }
}

/// The switch for the CDN, if it is used.
pub open spec fn cdn_args(cdn: bool) -> Seq<Seq<char>> {
    if cdn {
        seq!["--cdn"@]
    } else {
        Seq::empty()
    }
}

/// The switch for what is run, and all of it behind, if there is anything.
pub open spec fn run_args(run: Seq<Seq<char>>) -> Seq<Seq<char>> {
    if run.len() > 0 {
        seq!["--run"@] + run
    } else {
        Seq::empty()
    }
}

impl WebuiLaunchConfig {
    /// The settings as the deploy configuration has them, and the usual ones where it has none or
    /// something that is not understood.
    pub fn from_deploy_config(config: Option<&ConfigValue>) -> (r: WebuiLaunchConfig)
        ensures
            r.host@ == match webui_text(config::target(config), "WebuiHost"@) {
                Some(host) => host,
                None => "127.0.0.1"@,
            },
            r.port as nat == match webui_value(config::target(config), "WebuiPort"@) {
                Some(value) => match config::u16_of(value) {
                    Some(port) => port,
                    None => 22267,
                },
                None => 22267,
            },
            text::view_of(r.password) == webui_text(config::target(config), "Password"@),
            r.cdn == match webui_value(config::target(config), "CDN"@) {
                Some(value) => config::bool_of(value) == Some(true),
                None => false,
            },
            text::view_of(r.ssl_key) == webui_text(config::target(config), "WebuiSSLKey"@),
            text::view_of(r.ssl_cert) == webui_text(config::target(config), "WebuiSSLCert"@),
            text::views(r.run@) == match webui_value(config::target(config), "Run"@) {
                Some(value) => config::string_list_of(value),
                None => Seq::empty(),
            },
            r.told() == settings(config::target(config)),
    {
        let host: String = match webui_string(config, "WebuiHost") {
            Some(host) => host,
            None => "127.0.0.1".to_owned(),
        };
        let port: u16 = match config::find_deploy_value(config, "Webui", "WebuiPort") {
            Some(value) => match config::value_as_u16(value) {
                Some(port) => port,
                None => 22267,
            },
            None => 22267,
        };
        let cdn: bool = match config::find_deploy_value(config, "Webui", "CDN") {
            Some(value) => match config::value_as_bool(value) {
                Some(flag) => flag,
                None => false,
            },
            None => false,
        };
        let run: Vec<String> = match config::find_deploy_value(config, "Webui", "Run") {
            Some(value) => config::value_as_string_list(value),
            None => Vec::new(),
        };
        assert(run@.len() == 0 ==> text::views(run@) =~= Seq::<Seq<char>>::empty());
        let ghost all = settings(config::target(config));
        assert(text::views(run@) =~= all.run);
        WebuiLaunchConfig {
            host,
            port,
            password: webui_string(config, "Password"),
            cdn,
            ssl_key: webui_string(config, "WebuiSSLKey"),
            ssl_cert: webui_string(config, "WebuiSSLCert"),
            run,
        }
    }

    /// What the web interface is told by these settings.
    pub open spec fn told(self) -> Given {
        Given {
            host: Some(self.host@),
            port: Some(text::decimal(self.port as nat)),
            password: text::view_of(self.password),
            cdn: self.cdn,
            ssl_key: text::view_of(self.ssl_key),
            ssl_cert: text::view_of(self.ssl_cert),
            run: text::views(self.run@),
        }
    }

    /// The arguments of the Python interpreter.
    pub open spec fn arguments(self) -> Seq<Seq<char>> {
        seq![
            "gui.py"@,
            "--host"@,
            self.host@,
            "--port"@,
            text::decimal(self.port as nat),
        ] + option_args("--key"@, text::view_of(self.password)) + (if self.cdn {
            seq!["--cdn"@]
        } else {
            Seq::empty()
        }) + option_args("--ssl-key"@, text::view_of(self.ssl_key)) + option_args(
            "--ssl-cert"@,
            text::view_of(self.ssl_cert),
        ) + (if self.run@.len() > 0 {
            seq!["--run"@] + text::views(self.run@)
        } else {
            Seq::empty()
        })
    }

    /// The arguments of the Python interpreter.
    pub fn args(&self) -> (r: Vec<String>)
        ensures
            text::views(r@) == self.arguments(),
    {
        let mut args: Vec<String> = Vec::new();
        args.push("gui.py".to_owned());
        args.push("--host".to_owned());
        args.push(self.host.clone());
        args.push("--port".to_owned());
        args.push(strings::decimal_string(self.port as u64));
        assert(text::views(args@) =~= seq![
            "gui.py"@,
            "--host"@,
            self.host@,
            "--port"@,
            text::decimal(self.port as nat),
        ]);
        push_option(&mut args, "--key", &self.password);
        if self.cdn {
            let ghost before = text::views(args@);
            args.push("--cdn".to_owned());
            assert(text::views(args@) =~= before + seq!["--cdn"@]);
        } else {
            assert(text::views(args@) =~= text::views(args@) + Seq::<Seq<char>>::empty());
        }
        push_option(&mut args, "--ssl-key", &self.ssl_key);
        push_option(&mut args, "--ssl-cert", &self.ssl_cert);
        let ghost before = text::views(args@);
        if self.run.len() > 0 {
            args.push("--run".to_owned());
            assert(text::views(args@) =~= before + (seq!["--run"@] + text::views(
                self.run@.take(0),
            )));
            for i in 0..self.run.len()
                invariant
                    text::views(args@) == before + (seq!["--run"@] + text::views(
                        self.run@.take(i as int),
                    )),
            {
                let ghost so_far = text::views(args@);
                args.push(self.run[i].clone());
                assert(text::views(args@) =~= so_far.push(self.run@[i as int]@));
                assert(text::views(self.run@.take(i + 1)) =~= text::views(
                    self.run@.take(i as int),
                ).push(self.run@[i as int]@));
                assert(text::views(args@) =~= before + (seq!["--run"@] + text::views(
                    self.run@.take(i + 1),
                )));
            }
            assert(self.run@.take(self.run@.len() as int) =~= self.run@);
        } else {
            assert(before =~= before + Seq::<Seq<char>>::empty());
        }
        args
    }
}

fn push_option(args: &mut Vec<String>, switch: &str, value: &Option<String>)
    ensures
        text::views(final(args)@) == text::views(old(args)@) + option_args(
            switch@,
            text::view_of(*value),
        ),
{
    let ghost before = text::views(args@);
    match value {
        Some(v) => {
            args.push(switch.to_owned());
            args.push(v.clone());
            assert(text::views(args@) =~= before + seq![switch@, v@]);
        },
        None => {
            assert(text::views(args@) =~= before + Seq::<Seq<char>>::empty());
        },
    }
}

/// What a program is told by its arguments, switch by switch.
pub struct Given {
    pub host: Option<Seq<char>>,
    pub port: Option<Seq<char>>,
    pub password: Option<Seq<char>>,
    pub cdn: bool,
    pub ssl_key: Option<Seq<char>>,
    pub ssl_cert: Option<Seq<char>>,
    pub run: Seq<Seq<char>>,
}

impl Given {
    /// Nothing.
    pub open spec fn nothing() -> Given {
        Given {
            host: None,
            port: None,
            password: None,
            cdn: false,
            ssl_key: None,
            ssl_cert: None,
            run: Seq::empty(),
        }
    }

    /// The same, and what the switch says with this value.
    pub open spec fn and(self, switch: Seq<char>, value: Seq<char>) -> Given {
        if switch == "--host"@ {
            Given { host: Some(value), ..self }
        } else if switch == "--port"@ {
            Given { port: Some(value), ..self }
        } else if switch == "--key"@ {
            Given { password: Some(value), ..self }
        } else if switch == "--ssl-key"@ {
            Given { ssl_key: Some(value), ..self }
        } else if switch == "--ssl-cert"@ {
            Given { ssl_cert: Some(value), ..self }
        } else {
            self
        }
    }
}

/// How arguments are read from the left: a switch takes the argument behind it as its value, the
/// switch for the CDN takes none, and the one for what is run takes all that is left.
pub open spec fn given(args: Seq<Seq<char>>) -> Given
    decreases args.len(),
{
    if args.len() == 0 {
        Given::nothing()
    } else if args[0] == "--run"@ {
        Given { run: args.skip(1), ..Given::nothing() }
    } else if args[0] == "--cdn"@ {
        Given { cdn: true, ..given(args.skip(1)) }
    } else if args.len() == 1 {
        Given::nothing()
    } else {
        given(args.skip(2)).and(args[0], args[1])
    }
}

proof fn lemma_switches_differ()
    ensures
        "--run"@ != "--cdn"@,
        "--host"@ != "--run"@ && "--host"@ != "--cdn"@,
        "--port"@ != "--run"@ && "--port"@ != "--cdn"@ && "--port"@ != "--host"@,
        "--key"@ != "--run"@ && "--key"@ != "--cdn"@ && "--key"@ != "--host"@ && "--key"@
            != "--port"@,
        "--ssl-key"@ != "--run"@ && "--ssl-key"@ != "--cdn"@ && "--ssl-key"@ != "--host"@
            && "--ssl-key"@ != "--port"@ && "--ssl-key"@ != "--key"@,
        "--ssl-cert"@ != "--run"@ && "--ssl-cert"@ != "--cdn"@ && "--ssl-cert"@ != "--host"@
            && "--ssl-cert"@ != "--port"@ && "--ssl-cert"@ != "--key"@ && "--ssl-cert"@
            != "--ssl-key"@,
{
    reveal_strlit("--run");
    reveal_strlit("--cdn");
    reveal_strlit("--host");
    reveal_strlit("--port");
    reveal_strlit("--key");
    reveal_strlit("--ssl-key");
    reveal_strlit("--ssl-cert");
    assert("--run"@[2] == 'r' && "--cdn"@[2] == 'c' && "--host"@[2] == 'h' && "--port"@[2] == 'p'
        && "--key"@[2] == 'k' && "--ssl-key"@[2] == 's' && "--ssl-cert"@[2] == 's');
    assert("--ssl-key"@.len() != "--ssl-cert"@.len());
}

proof fn lemma_option_given(switch: Seq<char>, value: Option<Seq<char>>, rest: Seq<Seq<char>>)
    requires
        switch != "--run"@,
        switch != "--cdn"@,
    ensures
        given(option_args(switch, value) + rest) == match value {
            Some(v) => given(rest).and(switch, v),
            None => given(rest),
        },
{
    let all = option_args(switch, value) + rest;
    if let Some(v) = value {
        assert(all[0] == switch && all[1] == v);
        assert(all.skip(2) =~= rest);
    } else {
        assert(all =~= rest);
    }
}

proof fn lemma_run_given(run: Seq<Seq<char>>)
    ensures
        given(run_args(run)) == (Given { run, ..Given::nothing() }),
{
    if run.len() > 0 {
        assert((seq!["--run"@] + run)[0] == "--run"@);
        assert((seq!["--run"@] + run).skip(1) =~= run);
    } else {
        assert(run =~= Seq::empty());
    }
}

proof fn lemma_cdn_given(cdn: bool, rest: Seq<Seq<char>>)
    requires
        !given(rest).cdn,
    ensures
        given(cdn_args(cdn) + rest) == (Given { cdn, ..given(rest) }),
{
    lemma_switches_differ();
    if cdn {
        let all = seq!["--cdn"@] + rest;
        assert(all[0] == "--cdn"@);
        assert(all.skip(1) =~= rest);
    } else {
        assert(Seq::<Seq<char>>::empty() + rest =~= rest);
    }
}

/// Behind the name of the program, the arguments read back switch by switch as the settings that
/// they were made of: host, port, password, CDN, key, certificate and what is run, each where it is
/// set and only there.
pub proof fn the_arguments_read_back(config: WebuiLaunchConfig)
    ensures
        config.arguments().len() > 0,
        config.arguments()[0] == "gui.py"@,
        given(config.arguments().skip(1)).host == Some(config.host@),
        given(config.arguments().skip(1)).port == Some(text::decimal(config.port as nat)),
        given(config.arguments().skip(1)).password == text::view_of(config.password),
        given(config.arguments().skip(1)).cdn == config.cdn,
        given(config.arguments().skip(1)).ssl_key == text::view_of(config.ssl_key),
        given(config.arguments().skip(1)).ssl_cert == text::view_of(config.ssl_cert),
        given(config.arguments().skip(1)).run == text::views(config.run@),
{
    lemma_switches_differ();
    let run = run_args(text::views(config.run@));
    lemma_run_given(text::views(config.run@));
    let cert = text::view_of(config.ssl_cert);
    let after_cert = option_args("--ssl-cert"@, cert) + run;
    lemma_option_given("--ssl-cert"@, cert, run);
    let key = text::view_of(config.ssl_key);
    let after_key = option_args("--ssl-key"@, key) + after_cert;
    lemma_option_given("--ssl-key"@, key, after_cert);
    let after_cdn = cdn_args(config.cdn) + after_key;
    lemma_cdn_given(config.cdn, after_key);
    let password = text::view_of(config.password);
    let after_password = option_args("--key"@, password) + after_cdn;
    lemma_option_given("--key"@, password, after_cdn);
    let port = Some(text::decimal(config.port as nat));
    let after_port = option_args("--port"@, port) + after_password;
    lemma_option_given("--port"@, port, after_password);
    let host = Some(config.host@);
    let after_host = option_args("--host"@, host) + after_port;
    lemma_option_given("--host"@, host, after_port);
    lemma_arguments_in_parts(config);
}

proof fn lemma_arguments_in_parts(config: WebuiLaunchConfig)
    ensures
        config.arguments().len() > 0,
        config.arguments()[0] == "gui.py"@,
        config.arguments().skip(1) == option_args("--host"@, Some(config.host@)) + (option_args(
            "--port"@,
            Some(text::decimal(config.port as nat)),
        ) + (option_args("--key"@, text::view_of(config.password)) + (cdn_args(config.cdn) + (
        option_args("--ssl-key"@, text::view_of(config.ssl_key)) + (option_args(
            "--ssl-cert"@,
            text::view_of(config.ssl_cert),
        ) + run_args(text::views(config.run@))))))),
{
    let start = seq![
        "gui.py"@,
        "--host"@,
        config.host@,
        "--port"@,
        text::decimal(config.port as nat),
    ];
    let (a, b, c, d, e) = (
        option_args("--key"@, text::view_of(config.password)),
        cdn_args(config.cdn),
        option_args("--ssl-key"@, text::view_of(config.ssl_key)),
        option_args("--ssl-cert"@, text::view_of(config.ssl_cert)),
        run_args(text::views(config.run@)),
    );
    assert(config.arguments() == start + a + b + c + d + e);
    let host = option_args("--host"@, Some(config.host@));
    let port = option_args("--port"@, Some(text::decimal(config.port as nat)));
    assert(start =~= seq!["gui.py"@] + host + port);
    lemma_concat(seq!["gui.py"@], host, port, a, b, c, d, e);
}

proof fn lemma_concat(
    first: Seq<Seq<char>>,
    h: Seq<Seq<char>>,
    p: Seq<Seq<char>>,
    a: Seq<Seq<char>>,
    b: Seq<Seq<char>>,
    c: Seq<Seq<char>>,
    d: Seq<Seq<char>>,
    e: Seq<Seq<char>>,
)
    requires
        first.len() == 1,
    ensures
        (first + h + p + a + b + c + d + e)[0] == first[0],
        (first + h + p + a + b + c + d + e).skip(1) == h + (p + (a + (b + (c + (d + e))))),
{
    assert((first + h + p + a + b + c + d + e).skip(1) =~= h + (p + (a + (b + (c + (d + e))))));
}

/// What the web interface is told by the deploy configuration.
pub open spec fn settings(config: Option<ConfigValue>) -> Given {
    Given {
        host: Some(
            match webui_text(config, "WebuiHost"@) {
                Some(host) => host,
                None => "127.0.0.1"@,
            },
        ),
        port: Some(
            text::decimal(
                match webui_value(config, "WebuiPort"@) {
                    Some(value) => match config::u16_of(value) {
                        Some(port) => port,
                        None => 22267,
                    },
                    None => 22267,
                },
            ),
        ),
        password: webui_text(config, "Password"@),
        cdn: match webui_value(config, "CDN"@) {
            Some(value) => config::bool_of(value) == Some(true),
            None => false,
        },
        ssl_key: webui_text(config, "WebuiSSLKey"@),
        ssl_cert: webui_text(config, "WebuiSSLCert"@),
        run: match webui_value(config, "Run"@) {
            Some(value) => config::string_list_of(value),
            None => Seq::empty(),
        },
    }
}

/// Each setting comes from the value under its own name in the section `Webui`: a text that is not
/// blank is taken as it stands for the host, the password, the key and the certificate, a port as
/// the number that it is, the CDN as the truth value, and what is run as the texts of the list.
pub proof fn each_setting_comes_from_its_own_name(
    config: ConfigValue,
    deploy: ConfigValue,
    webui: ConfigValue,
    text: String,
    port: u64,
    json: String,
    flag: bool,
    items: Vec<ConfigValue>,
)
    requires
        config::member(Some(config), "Deploy"@) == Some(deploy),
        config::member(Some(deploy), "Webui"@) == Some(webui),
        text::trim(text@).len() > 0,
        port < 65536,
    ensures
        config::member(Some(webui), "WebuiHost"@) == Some(ConfigValue::Text(text)) ==> settings(
            Some(config),
        ).host == Some(text@),
        config::member(Some(webui), "Password"@) == Some(ConfigValue::Text(text)) ==> settings(
            Some(config),
        ).password == Some(text@),
        config::member(Some(webui), "WebuiSSLKey"@) == Some(ConfigValue::Text(text)) ==> settings(
            Some(config),
        ).ssl_key == Some(text@),
        config::member(Some(webui), "WebuiSSLCert"@) == Some(ConfigValue::Text(text)) ==> settings(
            Some(config),
        ).ssl_cert == Some(text@),
        config::member(Some(webui), "WebuiPort"@) == Some(
            ConfigValue::Number { json, unsigned: Some(port) },
        ) ==> settings(Some(config)).port == Some(text::decimal(port as nat)),
        config::member(Some(webui), "CDN"@) == Some(ConfigValue::Flag(flag)) ==> settings(
            Some(config),
        ).cdn == flag,
        config::member(Some(webui), "Run"@) == Some(ConfigValue::List { json, items }) ==> settings(
            Some(config),
        ).run == config::texts_of(items@),
{
}

/// A setting that the configuration does not name has its usual value: the local host, the usual
/// port, no password, no CDN, neither key nor certificate, and nothing to run.
pub proof fn a_setting_that_is_missing_has_its_usual_value(config: Option<ConfigValue>)
    ensures
        webui_value(config, "WebuiHost"@) is None ==> settings(config).host == Some("127.0.0.1"@),
        webui_value(config, "WebuiPort"@) is None ==> settings(config).port == Some(
            text::decimal(22267),
        ),
        webui_value(config, "Password"@) is None ==> settings(config).password is None,
        webui_value(config, "CDN"@) is None ==> !settings(config).cdn,
        webui_value(config, "WebuiSSLKey"@) is None ==> settings(config).ssl_key is None,
        webui_value(config, "WebuiSSLCert"@) is None ==> settings(config).ssl_cert is None,
        webui_value(config, "Run"@) is None ==> settings(config).run.len() == 0,
        config is None ==> webui_value(config, "WebuiHost"@) is None && webui_value(
            config,
            "WebuiPort"@,
        ) is None,
{
}

/// What the deploy configuration says is what the web interface is told by its arguments.
pub proof fn the_configuration_reaches_the_web_interface(
    config: Option<ConfigValue>,
    launched: WebuiLaunchConfig,
)
    requires
        launched.told() == settings(config),
    ensures
        given(launched.arguments().skip(1)) == settings(config),
{
    the_arguments_read_back(launched);
}

/// The address of the web interface.
pub open spec fn url_text(port: u16) -> Seq<char> {
    "http://127.0.0.1:"@ + text::decimal(port as nat) + "/"@
}

/// The address of the web interface.
pub fn backend_url(port: u16) -> (r: String)
    ensures
        r@ == url_text(port),
{
    let mut out: String = "http://127.0.0.1:".to_owned();
    out.append(strings::decimal_string(port as u64).as_str());
    out.append("/");
    out
}

/// The socket address of the web interface.
pub open spec fn address_text(port: u16) -> Seq<char> {
    "127.0.0.1:"@ + text::decimal(port as nat)
}

/// The socket address of the web interface.
pub fn backend_address(port: u16) -> (r: String)
    ensures
        r@ == address_text(port),
{
    let mut out: String = "127.0.0.1:".to_owned();
    out.append(strings::decimal_string(port as u64).as_str());
    out
}

/// The address of the web interface is that of the local machine with the port, written in base
/// ten, so that each port has an address of its own.
pub proof fn each_port_has_an_address_of_its_own(a: u16, b: u16)
    ensures
        url_text(a) == "http://"@ + address_text(a) + "/"@,
        url_text(a) == url_text(b) ==> a == b,
        address_text(a) == address_text(b) ==> a == b,
        text::starts_with(address_text(a), "127.0.0.1:"@),
        text::parse_unsigned(address_text(a).skip("127.0.0.1:"@.len() as int), 65535) == Some(
            a as nat,
        ),
{
    reveal_strlit("http://127.0.0.1:");
    reveal_strlit("http://");
    reveal_strlit("127.0.0.1:");
    reveal_strlit("/");
    assert("http://127.0.0.1:"@ =~= "http://"@ + "127.0.0.1:"@);
    assert(url_text(a) =~= "http://"@ + address_text(a) + "/"@);
    assert(url_text(b) =~= "http://"@ + address_text(b) + "/"@);
    let k = "127.0.0.1:"@.len() as int;
    assert(address_text(a).skip(k) =~= text::decimal(a as nat));
    assert(address_text(b).skip(k) =~= text::decimal(b as nat));
    assert(address_text(a).take(k) =~= "127.0.0.1:"@);
    text::lemma_decimal_differs(a as nat, b as nat);
    text::lemma_decimal_parses(a as nat, 65535);
    if url_text(a) == url_text(b) {
        let n = "http://"@.len() as int;
        assert(url_text(a).subrange(n, url_text(a).len() - 1) =~= address_text(a));
        assert(url_text(b).subrange(n, url_text(b).len() - 1) =~= address_text(b));
    }
}

/// How long the launcher waits for a backend that it started, in milliseconds.
pub const BACKEND_START_TIMEOUT_MS: u64 = 60000;

/// How long one attempt to reach a backend that was just started may take, in milliseconds.
pub const BACKEND_START_ATTEMPT_MS: u64 = 100;

/// How long the launcher waits for a backend before it shows its page, in milliseconds.
pub const BACKEND_NAVIGATION_TIMEOUT_MS: u64 = 10000;

/// How long one attempt to reach the backend may take, in milliseconds.
pub const BACKEND_CONNECT_TIMEOUT_MS: u64 = 500;

/// How long a backend that was asked to end may take, in milliseconds.
pub const BACKEND_STOP_TIMEOUT_MS: u64 = 500;

/// What came of the last attempt of a wait.
#[derive(Clone, Debug)]
pub enum Attempt {
    NotMade,
    Succeeded,
    Failed(String),
}

/// What a wait does next.
#[derive(Clone, Debug)]
pub enum WaitStep {
    /// Make another attempt, after a pause if one has failed.
    TryNow,
    Succeed,
    /// Give up, with the error of the last attempt if one was made.
    GiveUp(Option<String>),
}

/// What a wait of `timeout_ms` does `elapsed_ms` after its start.
pub open spec fn wait_step(last: Attempt, elapsed_ms: u64, timeout_ms: u64) -> WaitStep {
    match last {
        Attempt::Succeeded => WaitStep::Succeed,
        Attempt::NotMade => if elapsed_ms < timeout_ms {
            WaitStep::TryNow
        } else {
            WaitStep::GiveUp(None)
        },
        Attempt::Failed(error) => if elapsed_ms < timeout_ms {
            WaitStep::TryNow
        } else {
            WaitStep::GiveUp(Some(error))
        },
    }
}

/// A wait succeeds just if its last attempt has, even at the last moment. It gives up only once its
/// time is over, and then stays so however much later it is; the error is that of the last attempt.
pub proof fn a_wait_lasts_its_time(last: Attempt, elapsed_ms: u64, later_ms: u64, timeout_ms: u64)
    requires
        elapsed_ms <= later_ms,
    ensures
        wait_step(last, elapsed_ms, timeout_ms) is Succeed <==> last is Succeeded,
        wait_step(last, elapsed_ms, timeout_ms) is GiveUp ==> elapsed_ms >= timeout_ms && wait_step(
            last,
            later_ms,
            timeout_ms,
        ) == wait_step(last, elapsed_ms, timeout_ms),
        wait_step(last, elapsed_ms, timeout_ms) is TryNow ==> elapsed_ms < timeout_ms,
        wait_step(last, elapsed_ms, timeout_ms) matches WaitStep::GiveUp(error) ==> match error {
            Some(error) => last == Attempt::Failed(error),
            None => last is NotMade,
        },
{
}

/// What a wait of `timeout_ms` does `elapsed_ms` after its start: it ends with the first attempt
/// that succeeds, and makes no attempt once the time is over.
pub fn next_wait_step(last: Attempt, elapsed_ms: u64, timeout_ms: u64) -> (r: WaitStep)
    ensures
        r == wait_step(last, elapsed_ms, timeout_ms),
        last is Succeeded ==> r is Succeed,
        last !is Succeeded && elapsed_ms < timeout_ms ==> r is TryNow,
        last is NotMade && elapsed_ms >= timeout_ms ==> r == WaitStep::GiveUp(None),
        last is Failed && elapsed_ms >= timeout_ms ==> r == WaitStep::GiveUp(Some(last->Failed_0)),
{
    match last {
        Attempt::Succeeded => WaitStep::Succeed,
        Attempt::NotMade => if elapsed_ms < timeout_ms {
            WaitStep::TryNow
        } else {
            WaitStep::GiveUp(None)
        },
        Attempt::Failed(error) => if elapsed_ms < timeout_ms {
            WaitStep::TryNow
        } else {
            WaitStep::GiveUp(Some(error))
        },
    }
}

/// The error of a backend that was started and did not come up.
pub fn start_timeout_message(port: u16) -> (r: String)
    ensures
        r@ == "Timeout waiting for port "@ + text::decimal(port as nat) + " to be ready"@,
{
    let mut out: String = "Timeout waiting for port ".to_owned();
    out.append(strings::decimal_string(port as u64).as_str());
    out.append(" to be ready");
    out
}

/// The error of an attempt to reach the backend.
pub fn connect_error_message(port: u16, error: &str) -> (r: String)
    ensures
        r@ == "Unable to connect to local backend at "@ + ("127.0.0.1:"@ + text::decimal(
            port as nat,
        )) + ": "@ + error@,
{
    let mut out: String = "Unable to connect to local backend at ".to_owned();
    out.append(backend_address(port).as_str());
    out.append(": ");
    out.append(error);
    out
}

/// What the stop of a backend does next.
#[derive(Clone, Copy, Debug, PartialEq, Eq, Structural)]
pub enum StopStep {
    /// There is no process: report that it ended well.
    NothingToStop,
    /// Ask the process to end.
    Signal,
    /// Look again after a pause.
    Wait,
    /// Report how the process ended.
    Report,
    Kill,
}

/// What the launcher knows of a process that it stops.
#[derive(Clone, Copy, Debug, PartialEq, Eq, Structural)]
pub struct StopState {
    pub has_process: bool,
    /// Processes can be asked to end on this system.
    pub can_signal: bool,
    pub signalled: bool,
    pub exited: bool,
    pub elapsed_ms: u64,
}

/// What the stop of a backend does next.
pub open spec fn stop_step(state: StopState) -> StopStep {
    if !state.has_process {
        StopStep::NothingToStop
    } else if !state.can_signal {
        StopStep::Kill
    } else if !state.signalled {
        StopStep::Signal
    } else if state.exited {
        StopStep::Report
    } else if state.elapsed_ms >= BACKEND_STOP_TIMEOUT_MS {
        StopStep::Kill
    } else {
        StopStep::Wait
    }
}

/// A process that can be asked to end is asked before anything else, and is killed only if it has
/// not ended half a second after that; one that has ended is never killed. Where it cannot be
/// asked, it is killed without delay. No step is taken against a process that is not there.
pub proof fn a_process_is_asked_before_it_is_killed(state: StopState)
    ensures
        stop_step(state) is NothingToStop <==> !state.has_process,
        state.has_process && !state.can_signal ==> stop_step(state) is Kill,
        state.has_process && state.can_signal && !state.signalled <==> stop_step(state) is Signal,
        state.can_signal && stop_step(state) is Kill ==> state.signalled && !state.exited
            && state.elapsed_ms >= 500,
        stop_step(state) is Wait ==> state.signalled && !state.exited && state.elapsed_ms < 500,
        stop_step(state) is Report ==> state.signalled && state.exited,
        state.has_process && state.can_signal && state.signalled && state.exited ==> stop_step(
            state,
        ) is Report,
        state.has_process && state.can_signal && state.signalled && !state.exited
            && state.elapsed_ms >= 500 ==> stop_step(state) is Kill,
{
}

/// What the stop of a backend does next: ask it to end, wait for that a while, then kill it. Where
/// a process cannot be asked, it is killed at once.
pub fn next_stop_step(state: StopState) -> (r: StopStep)
    ensures
        r == stop_step(state),
{
    if !state.has_process {
        StopStep::NothingToStop
    } else if !state.can_signal {
        StopStep::Kill
    } else if !state.signalled {
        StopStep::Signal
    } else if state.exited {
        StopStep::Report
    } else if state.elapsed_ms >= BACKEND_STOP_TIMEOUT_MS {
        StopStep::Kill
    } else {
        StopStep::Wait
    }
}

/// The environment variable by which the processes of the launcher `pid` are known.
pub open spec fn owner_mark(pid: nat) -> Seq<char> {
    "ALAS_LAUNCHER_PID="@ + text::decimal(pid)
}

/// The process `pid` was left behind by the launcher `own_pid`.
pub open spec fn is_leaked(pid: u32, own_pid: u32, environment: Seq<Seq<char>>) -> bool {
    pid != own_pid && environment.contains(owner_mark(own_pid as nat))
}

/// A launcher never takes itself for a process that it has left behind, nor one that carries the
/// marks of other launchers only; and wherever its own mark stands among the variables, it knows
/// the process as its own.
pub proof fn a_process_is_known_by_its_mark(
    pid: u32,
    own_pid: u32,
    environment: Seq<Seq<char>>,
    other: u32,
    i: int,
)
    ensures
        !is_leaked(own_pid, own_pid, environment),
        pid != own_pid && 0 <= i < environment.len() && environment[i] == "ALAS_LAUNCHER_PID="@
            + text::decimal(own_pid as nat) ==> is_leaked(pid, own_pid, environment),
        other != own_pid && environment == seq![owner_mark(other as nat)] ==> !is_leaked(
            pid,
            own_pid,
            environment,
        ),
        environment.len() == 0 ==> !is_leaked(pid, own_pid, environment),
{
    let k = "ALAS_LAUNCHER_PID="@.len() as int;
    assert(owner_mark(own_pid as nat).skip(k) =~= text::decimal(own_pid as nat));
    assert(owner_mark(other as nat).skip(k) =~= text::decimal(other as nat));
    text::lemma_decimal_differs(own_pid as nat, other as nat);
}

/// Whether a process was left behind by this launcher: it is another process, and one of its
/// environment variables marks the launcher as its owner.
pub fn is_leaked_process(pid: u32, own_pid: u32, environment: &Vec<String>) -> (r: bool)
    ensures
        r == is_leaked(pid, own_pid, text::views(environment@)),
{
    if pid == own_pid {
        return false;
    }
    let mut mark: String = "ALAS_LAUNCHER_PID=".to_owned();
    mark.append(strings::decimal_string(own_pid as u64).as_str());
    let ghost all = text::views(environment@);
    for i in 0..environment.len()
        invariant
            pid != own_pid,
            all == text::views(environment@),
            mark@ == owner_mark(own_pid as nat),
            forall|j: int| 0 <= j < i ==> #[trigger] all[j] != mark@,
    {
        assert(all[i as int] == environment@[i as int]@);
        if environment[i] == mark {
            return true;
        }
    }
    false
}

} // verus!
