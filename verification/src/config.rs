//! The application configuration as plain data, and the clamps on its
//! runtime knobs. Reading and parsing the configuration file happens
//! outside the library.

use vstd::prelude::*;

use crate::gateway::GatewayRuntimeConfig;

verus! {

#[derive(Debug, Clone)]
pub struct DiscordConfig {
    pub token: String,
}

#[derive(Debug, Clone)]
pub struct WhatsAppConfig {
    pub token: String,
    pub api_base: Option<String>,
    pub phone_number_id: Option<String>,
    pub default_to: Option<String>,
    pub verify_token: Option<String>,
    pub app_secret: Option<String>,
}

#[derive(Debug, Clone)]
pub struct SlackConfig {
    pub bot_token: String,
    pub app_token: Option<String>,
    pub default_channel: Option<String>,
    pub signing_secret: Option<String>,
}

#[derive(Debug, Clone)]
pub struct SignalConfig {
    pub endpoint: Option<String>,
}

#[derive(Debug, Clone, Copy)]
pub struct IMessageConfig {
    pub enabled: bool,
}

#[derive(Debug, Clone)]
pub struct TeamsConfig {
    pub bot_token: String,
    pub webhook_url: Option<String>,
}

#[derive(Debug, Clone)]
pub struct MatrixConfig {
    pub homeserver: String,
    pub access_token: String,
}

#[derive(Debug, Clone)]
pub struct ZaloConfig {
    pub token: String,
    pub webhook_url: Option<String>,
    pub default_to: Option<String>,
}

#[derive(Debug, Clone)]
pub struct GoogleChatConfig {
    pub webhook_url: String,
}

#[derive(Debug, Clone, Copy)]
pub struct WebChatConfig {
    pub enabled: bool,
}

#[derive(Debug, Clone)]
pub struct WebConfig {
    pub brave_key: Option<String>,
    pub auth_token: Option<String>,
}

#[derive(Debug, Clone)]
pub struct GoogleSheetsConfig {
    pub spreadsheet_id: String,
    pub service_account_json: String,
}

#[derive(Debug, Clone)]
pub struct TelegramConfig {
    pub token: String,
}

/// The default agent's settings. Temperature is carried in thousandths;
/// the transport layer converts.
#[derive(Debug, Clone)]
pub struct AgentDefaultConfig {
    pub model: String,
    pub system_prompt: String,
    pub max_tokens: usize,
    pub temperature_milli: u32,
}

#[derive(Debug, Clone)]
pub struct AgentsConfig {
    pub default: AgentDefaultConfig,
}

#[derive(Debug, Clone)]
pub struct GroqConfig {
    pub api_key: String,
}

#[derive(Debug, Clone)]
pub struct GoogleConfig {
    pub api_key: String,
    pub model: String,
}

#[derive(Debug, Clone)]
pub struct ProviderConfig {
    pub api_key: String,
    pub api_base: Option<String>,
    pub model: String,
}

#[derive(Debug, Clone)]
pub struct AnthropicConfig {
    pub api_key: String,
    pub model: String,
}

#[derive(Debug, Clone)]
pub struct ProvidersConfig {
    pub openai: Option<ProviderConfig>,
    pub openrouter: Option<ProviderConfig>,
    pub anthropic: Option<AnthropicConfig>,
    pub google: Option<GoogleConfig>,
    pub groq: Option<GroqConfig>,
}

/// Runtime knobs, all optional in the file.
#[derive(Debug, Clone, Copy)]
pub struct RuntimeConfig {
    pub ws_heartbeat_secs: Option<u64>,
    pub health_window_minutes: Option<u16>,
    pub dedupe_max_entries: Option<usize>,
    pub adapter_max_inflight: Option<usize>,
    pub adapter_retry_jitter_ms: Option<u64>,
}

impl Default for RuntimeConfig {
    fn default() -> (r: Self)
        ensures
            r.ws_heartbeat_secs is None,
            r.health_window_minutes is None,
            r.dedupe_max_entries is None,
            r.adapter_max_inflight is None,
            r.adapter_retry_jitter_ms is None,
    {
        RuntimeConfig {
            ws_heartbeat_secs: None,
            health_window_minutes: None,
            dedupe_max_entries: None,
            adapter_max_inflight: None,
            adapter_retry_jitter_ms: None,
        }
    }
}

/// The whole configuration.
#[derive(Debug, Clone)]
pub struct AppConfig {
    pub workspace: String,
    pub agents: AgentsConfig,
    pub providers: ProvidersConfig,
    pub whatsapp: Option<WhatsAppConfig>,
    pub telegram: Option<TelegramConfig>,
    pub slack: Option<SlackConfig>,
    pub discord: Option<DiscordConfig>,
    pub signal: Option<SignalConfig>,
    pub imessage: Option<IMessageConfig>,
    pub teams: Option<TeamsConfig>,
    pub matrix: Option<MatrixConfig>,
    pub zalo: Option<ZaloConfig>,
    pub google_chat: Option<GoogleChatConfig>,
    pub webchat: Option<WebChatConfig>,
    pub web: Option<WebConfig>,
    pub google_sheets: Option<GoogleSheetsConfig>,
    pub runtime: Option<RuntimeConfig>,
    pub attachment_policy: crate::attachment::AttachmentPolicy,
}

/// The first half of the channel order: which of the personal transports
/// are configured.
pub open spec fn spec_configured_front(c: AppConfig) -> Seq<&'static str> {
    (if c.whatsapp is Some {
        seq![crate::channel::CHANNEL_WHATSAPP]
    } else {
        Seq::<&'static str>::empty()
    }) + (if c.telegram is Some {
        seq![crate::channel::CHANNEL_TELEGRAM]
    } else {
        Seq::<&'static str>::empty()
    }) + (if c.slack is Some {
        seq![crate::channel::CHANNEL_SLACK]
    } else {
        Seq::<&'static str>::empty()
    }) + (if c.discord is Some {
        seq![crate::channel::CHANNEL_DISCORD]
    } else {
        Seq::<&'static str>::empty()
    }) + (if c.signal is Some {
        seq![crate::channel::CHANNEL_SIGNAL]
    } else {
        Seq::<&'static str>::empty()
    }) + (if c.imessage matches Some(cf) && cf.enabled {
        seq![crate::channel::CHANNEL_IMESSAGE]
    } else {
        Seq::<&'static str>::empty()
    })
}

/// The second half of the channel order.
pub open spec fn spec_configured_back(c: AppConfig) -> Seq<&'static str> {
    (if c.teams is Some {
        seq![crate::channel::CHANNEL_TEAMS]
    } else {
        Seq::<&'static str>::empty()
    }) + (if c.matrix is Some {
        seq![crate::channel::CHANNEL_MATRIX]
    } else {
        Seq::<&'static str>::empty()
    }) + (if c.zalo is Some {
        seq![crate::channel::CHANNEL_ZALO]
    } else {
        Seq::<&'static str>::empty()
    }) + (if c.google_chat is Some {
        seq![crate::channel::CHANNEL_GOOGLE_CHAT]
    } else {
        Seq::<&'static str>::empty()
    }) + (if c.webchat matches Some(cf) && cf.enabled {
        seq![crate::channel::CHANNEL_WEBCHAT]
    } else {
        Seq::<&'static str>::empty()
    })
}

/// The exact channel list a configuration yields, in the fixed order.
pub open spec fn spec_configured_channels(c: AppConfig) -> Seq<&'static str> {
    spec_configured_front(c) + spec_configured_back(c)
}

impl AppConfig {
    /// Channels configured in the active profile, in the fixed channel
    /// order: exactly those whose section is present (and, for the
    /// flag-led ones, enabled).
    fn configured_front(&self) -> (r: Vec<&'static str>)
        ensures
            r@ == spec_configured_front(*self),
    {
        let mut channels: Vec<&'static str> = Vec::new();
        let ghost mut acc: Seq<&'static str> = Seq::empty();
        if self.whatsapp.is_some() {
            channels.push(crate::channel::CHANNEL_WHATSAPP);
        }
        proof {
            acc = acc + (if self.whatsapp is Some {
        seq![crate::channel::CHANNEL_WHATSAPP]
    } else {
        Seq::<&'static str>::empty()
    });
            assert(channels@ =~= acc);
        }
        if self.telegram.is_some() {
            channels.push(crate::channel::CHANNEL_TELEGRAM);
        }
        proof {
            acc = acc + (if self.telegram is Some {
        seq![crate::channel::CHANNEL_TELEGRAM]
    } else {
        Seq::<&'static str>::empty()
    });
            assert(channels@ =~= acc);
        }
        if self.slack.is_some() {
            channels.push(crate::channel::CHANNEL_SLACK);
        }
        proof {
            acc = acc + (if self.slack is Some {
        seq![crate::channel::CHANNEL_SLACK]
    } else {
        Seq::<&'static str>::empty()
    });
            assert(channels@ =~= acc);
        }
        if self.discord.is_some() {
            channels.push(crate::channel::CHANNEL_DISCORD);
        }
        proof {
            acc = acc + (if self.discord is Some {
        seq![crate::channel::CHANNEL_DISCORD]
    } else {
        Seq::<&'static str>::empty()
    });
            assert(channels@ =~= acc);
        }
        if self.signal.is_some() {
            channels.push(crate::channel::CHANNEL_SIGNAL);
        }
        proof {
            acc = acc + (if self.signal is Some {
        seq![crate::channel::CHANNEL_SIGNAL]
    } else {
        Seq::<&'static str>::empty()
    });
            assert(channels@ =~= acc);
        }
        match &self.imessage {
            Some(cf) => if cf.enabled {
                channels.push(crate::channel::CHANNEL_IMESSAGE);
            },
            None => {
            },
        }
        proof {
            acc = acc + (if self.imessage matches Some(cf) && cf.enabled {
        seq![crate::channel::CHANNEL_IMESSAGE]
    } else {
        Seq::<&'static str>::empty()
    });
            assert(channels@ =~= acc);
        }
        proof {
            assert(acc =~= spec_configured_front(*self));
        }
        channels
    }

    fn configured_back(&self) -> (r: Vec<&'static str>)
        ensures
            r@ == spec_configured_back(*self),
    {
        let mut channels: Vec<&'static str> = Vec::new();
        let ghost mut acc: Seq<&'static str> = Seq::empty();
        if self.teams.is_some() {
            channels.push(crate::channel::CHANNEL_TEAMS);
        }
        proof {
            acc = acc + (if self.teams is Some {
        seq![crate::channel::CHANNEL_TEAMS]
    } else {
        Seq::<&'static str>::empty()
    });
            assert(channels@ =~= acc);
        }
        if self.matrix.is_some() {
            channels.push(crate::channel::CHANNEL_MATRIX);
        }
        proof {
            acc = acc + (if self.matrix is Some {
        seq![crate::channel::CHANNEL_MATRIX]
    } else {
        Seq::<&'static str>::empty()
    });
            assert(channels@ =~= acc);
        }
        if self.zalo.is_some() {
            channels.push(crate::channel::CHANNEL_ZALO);
        }
        proof {
            acc = acc + (if self.zalo is Some {
        seq![crate::channel::CHANNEL_ZALO]
    } else {
        Seq::<&'static str>::empty()
    });
            assert(channels@ =~= acc);
        }
        if self.google_chat.is_some() {
            channels.push(crate::channel::CHANNEL_GOOGLE_CHAT);
        }
        proof {
            acc = acc + (if self.google_chat is Some {
        seq![crate::channel::CHANNEL_GOOGLE_CHAT]
    } else {
        Seq::<&'static str>::empty()
    });
            assert(channels@ =~= acc);
        }
        match &self.webchat {
            Some(cf) => if cf.enabled {
                channels.push(crate::channel::CHANNEL_WEBCHAT);
            },
            None => {
            },
        }
        proof {
            acc = acc + (if self.webchat matches Some(cf) && cf.enabled {
        seq![crate::channel::CHANNEL_WEBCHAT]
    } else {
        Seq::<&'static str>::empty()
    });
            assert(channels@ =~= acc);
        }
        proof {
            assert(acc =~= spec_configured_back(*self));
        }
        channels
    }

    /// Channels configured in the active profile, in the fixed channel
    /// order: exactly those whose section is present (and, for the
    /// flag-led ones, enabled).
    pub fn configured_channels(&self) -> (r: Vec<&'static str>)
        ensures
            r@ == spec_configured_channels(*self),
    {
        let mut channels = self.configured_front();
        let mut back = self.configured_back();
        channels.append(&mut back);
        channels
    }
}

/// The bounded concurrency of the outbound adapters, clamped to 1..=8.
pub fn runtime_adapter_max_inflight(config: &AppConfig) -> (r: usize)
    ensures
        r == ({
            let v = match config.runtime {
                Some(rt) => match rt.adapter_max_inflight {
                    Some(v) => v,
                    None => 1,
                },
                None => 1,
            };
            if v < 1 {
                1usize
            } else if v > 8 {
                8usize
            } else {
                v
            }
        }),
{
    let v: usize = match &config.runtime {
        Some(rt) => match rt.adapter_max_inflight {
            Some(v) => v,
            None => 1,
        },
        None => 1,
    };
    if v < 1 {
        1
    } else if v > 8 {
        8
    } else {
        v
    }
}

/// The adapters' retry jitter bound, clamped to 0..=2000 ms.
pub fn runtime_adapter_retry_jitter_ms(config: &AppConfig) -> (r: u64)
    ensures
        r == ({
            let v = match config.runtime {
                Some(rt) => match rt.adapter_retry_jitter_ms {
                    Some(v) => v,
                    None => 150,
                },
                None => 150,
            };
            if v > 2000 {
                2000u64
            } else {
                v
            }
        }),
{
    let v: u64 = match &config.runtime {
        Some(rt) => match rt.adapter_retry_jitter_ms {
            Some(v) => v,
            None => 150,
        },
        None => 150,
    };
    if v > 2000 {
        2000
    } else {
        v
    }
}

/// The gateway's runtime knobs with their clamps applied: heartbeat
/// 3..=120 s, health window 5..=60 minutes, dedupe bound 128..=20000.
pub fn runtime_gateway_config(config: &AppConfig) -> (r: GatewayRuntimeConfig)
    ensures
        3 <= r.ws_heartbeat_secs <= 120,
        5 <= r.health_window_minutes <= 60,
        128 <= r.dedupe_max_entries <= 20000,
        (config.runtime matches Some(rt) && rt.ws_heartbeat_secs is None) || config.runtime
            is None ==> r.ws_heartbeat_secs == 15,
        (config.runtime matches Some(rt) && rt.health_window_minutes is None) || config.runtime
            is None ==> r.health_window_minutes == 60,
        (config.runtime matches Some(rt) && rt.dedupe_max_entries is None) || config.runtime
            is None ==> r.dedupe_max_entries == 2048,
{
    let hb: u64 = match &config.runtime {
        Some(rt) => match rt.ws_heartbeat_secs {
            Some(v) => v,
            None => 15,
        },
        None => 15,
    };
    let win: usize = match &config.runtime {
        Some(rt) => match rt.health_window_minutes {
            Some(v) => v as usize,
            None => 60,
        },
        None => 60,
    };
    let ded: usize = match &config.runtime {
        Some(rt) => match rt.dedupe_max_entries {
            Some(v) => v,
            None => 2048,
        },
        None => 2048,
    };
    GatewayRuntimeConfig {
        ws_heartbeat_secs: if hb < 3 {
            3
        } else if hb > 120 {
            120
        } else {
            hb
        },
        health_window_minutes: if win < 5 {
            5
        } else if win > 60 {
            60
        } else {
            win
        },
        dedupe_max_entries: if ded < 128 {
            128
        } else if ded > 20000 {
            20000
        } else {
            ded
        },
    }
}

} // verus!
