//! The settings pages: what they receive and answer, how secrets are kept out of answers and
//! kept when a form leaves them blank, and the checks on backups.

use vstd::prelude::*;
use vstd::string::StringExecFns;
use crate::config::{Config, EmbyServerConfig, same_but_servers};
use crate::text::{chars_of, decimal, decimal_string, opt_string_view, trim, trimmed};
use crate::users_api::{byte_len, fits_bytes};

verus! {

/// The settings key of the client control.
pub const CLIENT_CONTROL_SETTING_KEY: &'static str = "client_control";

/// The schema version of backups written now.
pub const BACKUP_SCHEMA_VERSION: u32 = 2;

/// The version of the encrypted envelope of a backup.
pub const BACKUP_ENVELOPE_VERSION: u32 = 1;

/// The bytes of salt of an encrypted backup.
pub const BACKUP_SALT_BYTES: usize = 16;

/// The bytes of nonce of an encrypted backup.
pub const BACKUP_NONCE_BYTES: usize = 12;

/// The largest backup text, in bytes.
pub const MAX_BACKUP_TEXT_BYTES: usize = 8388608;

/// A proxy server to restart.
#[derive(Debug)]
pub struct RestartProxyRequest {
    pub server_id: String,
}

/// A proxy server to switch on or off.
#[derive(Debug)]
pub struct ToggleProxyRequest {
    pub server_id: String,
    pub enabled: bool,
}

/// A backup to restore, and its password when it is encrypted.
#[derive(Debug)]
pub struct BackupImportRequest {
    pub password: Option<String>,
    pub backup: String,
}

/// The password to encrypt a backup with.
#[derive(Debug)]
pub struct BackupExportRequest {
    pub password: String,
}

/// An exported backup.
#[derive(Debug)]
pub struct BackupExportResponse {
    pub backup: String,
}

/// The envelope of an encrypted backup, its binary parts in base64.
#[derive(Debug)]
pub struct BackupEnvelope {
    pub version: u32,
    pub kdf: String,
    pub cipher: String,
    pub salt: String,
    pub nonce: String,
    pub data: String,
}

/// The results of checking settings.
#[derive(Debug)]
pub struct ValidationResponse {
    pub ok: bool,
    pub results: Vec<ValidationResult>,
}

/// One check of the settings.
#[derive(Debug)]
pub struct ValidationResult {
    pub scope: String,
    pub ok: bool,
    pub message: String,
    pub detail: String,
}

/// A server's Emby API key, shown on request.
#[derive(Debug)]
pub struct EmbyApiKeyResponse {
    pub api_key: String,
}

/// A passed check.
pub fn ok_result(scope: &str, message: &str, detail: &str) -> (r: ValidationResult)
    ensures
        r.scope@ == scope@,
        r.ok,
        r.message@ == message@,
        r.detail@ == detail@,
{
    ValidationResult {
        scope: String::from_str(scope),
        ok: true,
        message: String::from_str(message),
        detail: String::from_str(detail),
    }
}

/// A failed check.
pub fn err_result(scope: &str, message: &str, detail: &str) -> (r: ValidationResult)
    ensures
        r.scope@ == scope@,
        !r.ok,
        r.message@ == message@,
        r.detail@ == detail@,
{
    ValidationResult {
        scope: String::from_str(scope),
        ok: false,
        message: String::from_str(message),
        detail: String::from_str(detail),
    }
}

/// The schema version of backups that name none.
pub fn legacy_backup_schema_version() -> (r: u32)
    ensures
        r == 1,
{
    1
}

/// A backup password has 4 to 256 characters.
pub fn validate_backup_password(password: &str) -> (r: Result<(), String>)
    ensures
        r is Ok <==> (4 <= password@.len() <= 256),
        r matches Err(e) ==> e@ == "backup password must be between 4 and 256 characters"@,
{
    let v = chars_of(password);
    if v.len() < 4 || v.len() > 256 {
        return Err(String::from_str("backup password must be between 4 and 256 characters"));
    }
    Ok(())
}

/// A backup text takes at most 8 MiB.
pub fn validate_backup_text_size(value: &str) -> (r: Result<(), String>)
    ensures
        r is Ok <==> byte_len(value@) <= MAX_BACKUP_TEXT_BYTES,
        r matches Err(e) ==> e@ == "backup file is larger than 8 MiB"@,
{
    if !fits_bytes(value, MAX_BACKUP_TEXT_BYTES) {
        return Err(String::from_str("backup file is larger than 8 MiB"));
    }
    Ok(())
}

/// The envelope of an encrypted backup is one this version reads: envelope version 1,
/// `argon2id` and `aes-256-gcm`.
pub fn check_backup_envelope(envelope: &BackupEnvelope) -> (r: Result<(), String>)
    ensures
        r is Ok <==> (envelope.version == BACKUP_ENVELOPE_VERSION && envelope.kdf@ == "argon2id"@
            && envelope.cipher@ == "aes-256-gcm"@),
        r matches Err(e) ==> e@ == "unsupported backup format"@,
{
    if envelope.version != BACKUP_ENVELOPE_VERSION || !crate::strmap::str_eq(
        envelope.kdf.as_str(),
        "argon2id",
    ) || !crate::strmap::str_eq(envelope.cipher.as_str(), "aes-256-gcm") {
        return Err(String::from_str("unsupported backup format"));
    }
    Ok(())
}

/// The decoded salt and nonce of an encrypted backup have their lengths: the salt is
/// checked first.
pub fn check_backup_key_material(salt_len: usize, nonce_len: usize) -> (r: Result<(), String>)
    ensures
        salt_len != BACKUP_SALT_BYTES ==> (r matches Err(e) && e@ == "invalid backup salt length"@),
        salt_len == BACKUP_SALT_BYTES && nonce_len != BACKUP_NONCE_BYTES ==> (r matches Err(e) && e@
            == "invalid backup nonce length"@),
        r is Ok <==> (salt_len == BACKUP_SALT_BYTES && nonce_len == BACKUP_NONCE_BYTES),
{
    if salt_len != BACKUP_SALT_BYTES {
        return Err(String::from_str("invalid backup salt length"));
    }
    if nonce_len != BACKUP_NONCE_BYTES {
        return Err(String::from_str("invalid backup nonce length"));
    }
    Ok(())
}

/// A configuration as the settings pages show it: the API keys blanked, the OpenList
/// token removed, everything else kept.
pub open spec fn redacted(before: Config, after: Config) -> bool {
    &&& after.emby_api_key@.len() == 0
    &&& after.openlist_token is None
    &&& after.emby_host == before.emby_host
    &&& after.port == before.port
    &&& after.servers@.len() == before.servers@.len()
    &&& forall|i: int|
        0 <= i < after.servers@.len() ==> server_redacted(before.servers@[i], #[trigger] after.servers@[i])
    &&& {
        let b = Config { openlist_token: after.openlist_token, ..before };
        same_but_servers(after, b)
    }
}

/// A server as the settings pages show it: its API key blanked.
pub open spec fn server_redacted(before: EmbyServerConfig, after: EmbyServerConfig) -> bool {
    &&& after.emby_api_key@.len() == 0
    &&& after.id == before.id
    &&& after.name == before.name
    &&& after.emby_host == before.emby_host
    &&& after.port == before.port
    &&& after.enabled == before.enabled
    &&& after.block_web_ui == before.block_web_ui
    &&& after.real_ip_mode == before.real_ip_mode
    &&& after.real_ip_header == before.real_ip_header
    &&& after.trusted_proxy_cidrs == before.trusted_proxy_cidrs
}

/// Removes the secrets from a configuration before it is answered (see [`redacted`]).
pub fn redact_config_secrets(config: Config) -> (r: Config)
    ensures
        redacted(config, r),
{
    let mut config = config;
    let ghost before = config;
    config.emby_api_key = String::new();
    let mut servers: Vec<EmbyServerConfig> = Vec::new();
    std::mem::swap(&mut servers, &mut config.servers);
    let n = servers.len();
    let mut out: Vec<EmbyServerConfig> = Vec::new();
    let mut i: usize = 0;
    while i < n
        invariant
            n == servers@.len(),
            servers@ == before.servers@,
            i <= n,
            out@.len() == i,
            forall|k: int| 0 <= k < i ==> server_redacted(before.servers@[k], #[trigger] out@[k]),
        decreases n - i,
    {
        let mut s = servers[i].clone_server();
        s.emby_api_key = String::new();
        out.push(s);
        i = i + 1;
    }
    config.servers = out;
    config.openlist_token = None;
    config
}

/// The first server with the id, and its position.
pub open spec fn server_at(servers: Seq<EmbyServerConfig>, id: Seq<char>, i: int) -> bool {
    &&& 0 <= i < servers.len()
    &&& servers[i].id@ == id
    &&& forall|j: int| 0 <= j < i ==> (#[trigger] servers[j]).id@ != id
}

/// The first server with an id.
pub fn find_server(servers: &Vec<EmbyServerConfig>, id: &str) -> (r: Option<usize>)
    ensures
        match r {
            Some(i) => server_at(servers@, id@, i as int),
            None => forall|j: int| 0 <= j < servers@.len() ==> (#[trigger] servers@[j]).id@ != id@,
        },
{
    let mut i: usize = 0;
    while i < servers.len()
        invariant
            i <= servers@.len(),
            forall|j: int| 0 <= j < i ==> (#[trigger] servers@[j]).id@ != id@,
        decreases servers@.len() - i,
    {
        if crate::strmap::str_eq(servers[i].id.as_str(), id) {
            return Some(i);
        }
        i = i + 1;
    }
    None
}

/// The name and API key of the server with the id, for showing the key.
pub fn server_api_key(config: &Config, server_id: &str) -> (r: Result<(String, String), String>)
    ensures
        match r {
            Ok((name, key)) => exists|i: int|
                server_at(config.servers@, server_id@, i) && name@ == config.servers@[i].name@ && key@
                    == config.servers@[i].emby_api_key@,
            Err(e) => e@ == "server_id does not exist"@ && forall|j: int|
                0 <= j < config.servers@.len() ==> (#[trigger] config.servers@[j]).id@ != server_id@,
        },
{
    match find_server(&config.servers, server_id) {
        Some(i) => Ok((config.servers[i].name.clone(), config.servers[i].emby_api_key.clone())),
        None => Err(String::from_str("server_id does not exist")),
    }
}

/// The server id of a restart or toggle: trimmed, and required.
pub fn required_server_id(server_id: &str) -> (r: Result<String, String>)
    ensures
        match r {
            Ok(id) => id@ == trim(server_id@) && id@.len() > 0,
            Err(e) => trim(server_id@).len() == 0 && e@ == "server_id is required"@,
        },
{
    let t = trimmed(server_id);
    if t.len() == 0 {
        return Err(String::from_str("server_id is required"));
    }
    Ok(crate::text::string_of(&t))
}

/// Switches the server with the id on or off, and gives its name.
pub fn set_server_enabled(config: &mut Config, server_id: &str, enabled: bool) -> (r: Result<String, String>)
    ensures
        match r {
            Ok(name) => exists|i: int|
                server_at(old(config).servers@, server_id@, i) && name@ == old(config).servers@[i].name@
                    && final(config).servers@ == old(config).servers@.update(
                    i,
                    (EmbyServerConfig { enabled, ..old(config).servers@[i] }),
                ),
            Err(e) => e@ == "server_id does not exist"@ && final(config).servers@ == old(config).servers@ && forall|j: int|
                0 <= j < old(config).servers@.len() ==> (#[trigger] old(config).servers@[j]).id@
                    != server_id@,
        },
        same_but_servers(*final(config), *old(config)),
        final(config).emby_host == old(config).emby_host,
        final(config).emby_api_key == old(config).emby_api_key,
        final(config).port == old(config).port,
{
    match find_server(&config.servers, server_id) {
        Some(i) => {
            let mut s = config.servers[i].clone_server();
            s.enabled = enabled;
            let name = s.name.clone();
            config.servers.set(i, s);
            Ok(name)
        },
        None => Err(String::from_str("server_id does not exist")),
    }
}

/// Each server of a saved form keeps the API key of the server with its id when the form
/// leaves the key blank.
pub open spec fn server_key_kept(existing: Seq<EmbyServerConfig>, before: EmbyServerConfig, after: EmbyServerConfig) -> bool {
    if trim(before.emby_api_key@).len() == 0 && exists|i: int| server_at(existing, before.id@, i) {
        exists|i: int|
            server_at(existing, before.id@, i) && after == EmbyServerConfig {
                emby_api_key: existing[i].emby_api_key,
                ..before
            }
    } else {
        after == before
    }
}

fn keep_server_keys(servers: &mut Vec<EmbyServerConfig>, existing: &Vec<EmbyServerConfig>)
    ensures
        final(servers)@.len() == old(servers)@.len(),
        forall|i: int|
            0 <= i < final(servers)@.len() ==> server_key_kept(existing@, old(servers)@[i], #[trigger] final(servers)@[i]),
{
    let ghost before = servers@;
    let n = servers.len();
    let mut i: usize = 0;
    while i < n
        invariant
            n == before.len(),
            servers@.len() == n,
            i <= n,
            forall|k: int| 0 <= k < i ==> server_key_kept(existing@, before[k], #[trigger] servers@[k]),
            forall|k: int| i <= k < n ==> #[trigger] servers@[k] == before[k],
        decreases n - i,
    {
        let blank = trimmed(servers[i].emby_api_key.as_str()).len() == 0;
        if blank {
            match find_server(existing, servers[i].id.as_str()) {
                Some(j) => {
                    let mut s = servers[i].clone_server();
                    s.emby_api_key = existing[j].emby_api_key.clone();
                    servers.set(i, s);
                },
                None => {},
            }
        }
        i = i + 1;
    }
}

/// A blank or missing OpenList token.
pub open spec fn token_blank(t: Option<String>) -> bool {
    match t {
        Some(s) => trim(s@).len() == 0,
        None => true,
    }
}

fn blank_token(t: &Option<String>) -> (r: bool)
    ensures
        r == token_blank(*t),
{
    match t {
        Some(s) => trimmed(s.as_str()).len() == 0,
        None => true,
    }
}

fn copy_token(t: &Option<String>) -> (r: Option<String>)
    ensures
        r == *t,
{
    match t {
        Some(s) => Some(s.clone()),
        None => None,
    }
}

/// Fills the secrets a saved settings form leaves blank from the stored configuration:
/// each server's API key from the stored server with its id, the top-level key when there
/// are servers (without servers the top-level Emby host and key are cleared), and the
/// OpenList token when OpenList is configured (without OpenList the token is removed).
pub fn keep_saved_secrets(payload: &mut Config, existing: &Config)
    ensures
        final(payload).servers@.len() == old(payload).servers@.len(),
        forall|i: int|
            0 <= i < final(payload).servers@.len() ==> server_key_kept(
                existing.servers@,
                old(payload).servers@[i],
                #[trigger] final(payload).servers@[i],
            ),
        old(payload).servers@.len() > 0 ==> final(payload).emby_host == old(payload).emby_host,
        old(payload).servers@.len() > 0 ==> final(payload).emby_api_key@ == if trim(
            old(payload).emby_api_key@,
        ).len() == 0 {
            existing.emby_api_key@
        } else {
            old(payload).emby_api_key@
        },
        old(payload).servers@.len() == 0 ==> final(payload).emby_host@.len() == 0,
        old(payload).servers@.len() == 0 ==> final(payload).emby_api_key@.len() == 0,
        final(payload).openlist_token == if old(payload).openlist_addr is None {
            None
        } else if token_blank(old(payload).openlist_token) {
            existing.openlist_token
        } else {
            old(payload).openlist_token
        },
        final(payload).openlist_addr == old(payload).openlist_addr,
        final(payload).port == old(payload).port,
        final(payload).cache_ttl_seconds == old(payload).cache_ttl_seconds,
        final(payload).strm_url_mappings == old(payload).strm_url_mappings,
{
    keep_server_keys(&mut payload.servers, &existing.servers);
    if payload.servers.len() > 0 && trimmed(payload.emby_api_key.as_str()).len() == 0 {
        payload.emby_api_key = existing.emby_api_key.clone();
    } else if payload.servers.len() == 0 {
        payload.emby_host = String::new();
        payload.emby_api_key = String::new();
    }
    if payload.openlist_addr.is_none() {
        payload.openlist_token = None;
    } else if blank_token(&payload.openlist_token) {
        payload.openlist_token = copy_token(&existing.openlist_token);
    }
}

/// Fills the secrets a settings form to be checked leaves blank from the stored
/// configuration: each server's API key, the top-level key when there are servers, and the
/// OpenList token when OpenList is configured; nothing is cleared.
pub fn keep_checked_secrets(payload: &mut Config, existing: &Config)
    ensures
        final(payload).servers@.len() == old(payload).servers@.len(),
        forall|i: int|
            0 <= i < final(payload).servers@.len() ==> server_key_kept(
                existing.servers@,
                old(payload).servers@[i],
                #[trigger] final(payload).servers@[i],
            ),
        final(payload).emby_host == old(payload).emby_host,
        final(payload).emby_api_key@ == if old(payload).servers@.len() > 0 && trim(
            old(payload).emby_api_key@,
        ).len() == 0 {
            existing.emby_api_key@
        } else {
            old(payload).emby_api_key@
        },
        final(payload).openlist_token == if old(payload).openlist_addr is Some && token_blank(
            old(payload).openlist_token,
        ) {
            existing.openlist_token
        } else {
            old(payload).openlist_token
        },
        final(payload).openlist_addr == old(payload).openlist_addr,
        final(payload).port == old(payload).port,
        final(payload).cache_ttl_seconds == old(payload).cache_ttl_seconds,
        final(payload).strm_url_mappings == old(payload).strm_url_mappings,
{
    keep_server_keys(&mut payload.servers, &existing.servers);
    if payload.servers.len() > 0 && trimmed(payload.emby_api_key.as_str()).len() == 0 {
        payload.emby_api_key = existing.emby_api_key.clone();
    }
    if payload.openlist_addr.is_some() && blank_token(&payload.openlist_token) {
        payload.openlist_token = copy_token(&existing.openlist_token);
    }
}


/// Which servers repeat the port of a server before them.
pub fn repeated_ports(servers: &Vec<EmbyServerConfig>) -> (r: Vec<bool>)
    ensures
        r@.len() == servers@.len(),
        forall|k: int|
            0 <= k < r@.len() ==> #[trigger] r@[k] == exists|j: int| 0 <= j < k && servers@[j].port == servers@[k].port,
{
    let mut out: Vec<bool> = Vec::new();
    let mut k: usize = 0;
    while k < servers.len()
        invariant
            k <= servers@.len(),
            out@.len() == k,
            forall|t: int|
                0 <= t < k ==> #[trigger] out@[t] == exists|j: int| 0 <= j < t && servers@[j].port == servers@[t].port,
        decreases servers@.len() - k,
    {
        let mut seen = false;
        let mut j: usize = 0;
        while j < k
            invariant
                j <= k < servers@.len(),
                seen == exists|i: int| 0 <= i < j && servers@[i].port == servers@[k as int].port,
            decreases k - j,
        {
            if servers[j].port == servers[k].port {
                seen = true;
            }
            j = j + 1;
        }
        out.push(seen);
        k = k + 1;
    }
    out
}

/// The listen address of a proxy port: `0.0.0.0:<port>`.
pub fn listen_address(port: u16) -> (r: String)
    ensures
        r@ == "0.0.0.0:"@ + decimal(port as nat),
{
    let mut r = String::from_str("0.0.0.0:");
    let n = decimal_string(port as u64);
    r.append(n.as_str());
    r
}

/// The check of a server's proxy port: a port that repeats an earlier server's is refused;
/// otherwise the port is fine when the running proxy of that server listens on it or it can
/// be bound, and taken otherwise.
pub fn port_check(name: &str, port: u16, repeated: bool, owned_by_current: bool, bind_ok: bool) -> (r: ValidationResult)
    ensures
        r.scope@ == name@,
        repeated ==> !r.ok && r.message@ == "反代端口重复"@ && r.detail@ == "端口 "@ + decimal(port as nat),
        !repeated && owned_by_current ==> r.ok && r.message@ == "反代端口正在由当前服务监听"@ && r.detail@
            == "0.0.0.0:"@ + decimal(port as nat),
        !repeated && !owned_by_current && bind_ok ==> r.ok && r.message@ == "反代端口可用"@ && r.detail@
            == "0.0.0.0:"@ + decimal(port as nat),
        !repeated && !owned_by_current && !bind_ok ==> !r.ok && r.message@ == "反代端口已被占用"@ && r.detail@
            == "0.0.0.0:"@ + decimal(port as nat),
{
    if repeated {
        let mut d = String::from_str("端口 ");
        let n = decimal_string(port as u64);
        d.append(n.as_str());
        return err_result(name, "反代端口重复", d.as_str());
    }
    let addr = listen_address(port);
    if owned_by_current {
        ok_result(name, "反代端口正在由当前服务监听", addr.as_str())
    } else if bind_ok {
        ok_result(name, "反代端口可用", addr.as_str())
    } else {
        err_result(name, "反代端口已被占用", addr.as_str())
    }
}

/// Whether every check passed, and the audit result that says so: `success` or `warn`.
pub fn validation_outcome(results: &Vec<ValidationResult>) -> (r: (bool, &'static str))
    ensures
        r.0 == forall|k: int| 0 <= k < results@.len() ==> (#[trigger] results@[k]).ok,
        r.0 ==> r.1@ == "success"@,
        !r.0 ==> r.1@ == "warn"@,
{
    let mut i: usize = 0;
    while i < results.len()
        invariant
            i <= results@.len(),
            forall|k: int| 0 <= k < i ==> (#[trigger] results@[k]).ok,
        decreases results@.len() - i,
    {
        if !results[i].ok {
            return (false, "warn");
        }
        i = i + 1;
    }
    (true, "success")
}


/// How a backup of a schema version is restored: version 1 restores only the parts it holds,
/// the current version restores every part as a snapshot (`true`); other versions are
/// refused.
pub fn backup_restore_mode(schema_version: u32) -> (r: Result<bool, crate::error::AppError>)
    ensures
        schema_version == 1 ==> r == Ok::<bool, crate::error::AppError>(false),
        schema_version == BACKUP_SCHEMA_VERSION ==> r == Ok::<bool, crate::error::AppError>(true),
        schema_version != 1 && schema_version != BACKUP_SCHEMA_VERSION ==> (r matches Err(
            crate::error::AppError::Validation(m),
        ) && m@ == "unsupported backup schema version "@ + decimal(schema_version as nat)),
{
    if schema_version == 1 {
        Ok(false)
    } else if schema_version == BACKUP_SCHEMA_VERSION {
        Ok(true)
    } else {
        let mut m = String::from_str("unsupported backup schema version ");
        let n = decimal_string(schema_version as u64);
        m.append(n.as_str());
        Err(crate::error::AppError::Validation(m))
    }
}

/// Which parts a backup holds, beside its schema version.
#[derive(Debug, Clone, Copy)]
pub struct BackupContents {
    pub schema_version: u32,
    pub client_control: bool,
    pub system_log_config: bool,
    pub user_policies: bool,
    pub user_templates: bool,
}

/// Which stored settings a restore replaces; the runtime configuration is always replaced.
#[derive(Debug, Clone, Copy)]
pub struct RestorePlan {
    pub client_control: bool,
    pub system_log_config: bool,
    pub user_policies: bool,
    pub user_templates: bool,
}

/// What a restore of a backup replaces: a backup of the current schema is a snapshot and
/// replaces every stored part (a part it lacks is restored to its default); a version 1
/// backup replaces only the parts it holds; other versions are refused.
pub fn restore_plan(contents: &BackupContents) -> (r: Result<RestorePlan, crate::error::AppError>)
    ensures
        contents.schema_version == BACKUP_SCHEMA_VERSION ==> r == Ok::<
            RestorePlan,
            crate::error::AppError,
        >(RestorePlan { client_control: true, system_log_config: true, user_policies: true, user_templates: true }),
        contents.schema_version == 1 ==> r == Ok::<RestorePlan, crate::error::AppError>(
            RestorePlan {
                client_control: contents.client_control,
                system_log_config: contents.system_log_config,
                user_policies: contents.user_policies,
                user_templates: contents.user_templates,
            },
        ),
        contents.schema_version != 1 && contents.schema_version != BACKUP_SCHEMA_VERSION ==> (r matches Err(
            crate::error::AppError::Validation(m),
        ) && m@ == "unsupported backup schema version "@ + decimal(contents.schema_version as nat)),
{
    let snapshot = match backup_restore_mode(contents.schema_version) {
        Ok(s) => s,
        Err(e) => return Err(e),
    };
    Ok(RestorePlan {
        client_control: snapshot || contents.client_control,
        system_log_config: snapshot || contents.system_log_config,
        user_policies: snapshot || contents.user_policies,
        user_templates: snapshot || contents.user_templates,
    })
}

/// The password of an encrypted backup to restore: the given one trimmed, which must not be
/// empty.
pub fn encrypted_backup_password(password: Option<&str>) -> (r: Result<String, crate::error::AppError>)
    ensures
        (password matches Some(p) && trim(p@).len() > 0) ==> (r matches Ok(s) && s@ == trim(
            password->0@,
        )),
        !(password matches Some(p) && trim(p@).len() > 0) ==> (r matches Err(
            crate::error::AppError::Validation(m),
        ) && m@ == "backup password is required"@),
{
    match password {
        Some(p) => {
            let t = trimmed(p);
            if t.len() > 0 {
                return Ok(crate::text::string_of(&t));
            }
        },
        None => {},
    }
    Err(crate::error::AppError::Validation(String::from_str("backup password is required")))
}

} // verus!
