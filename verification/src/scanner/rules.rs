//! The built-in rule tables, one per phase of the line-oriented detectors.
//!
//! An entry holds a regular expression, the rule's identifier, the severity
//! and the description of its findings. Patterns are case-sensitive unless
//! they begin with `(?i)`.

use vstd::prelude::*;
use super::Severity;

verus! {

/// One entry of a rule table: pattern, identifier, severity, description.
pub type RuleEntry = (&'static str, &'static str, Severity, &'static str);

/// Install hooks of `setup.py` and `setup.cfg`.
pub const SETUP_RULES: [RuleEntry; 2] = [
    (
        r"cmdclass",
        "INSTALL-001",
        Severity::Critical,
        "setup.py cmdclass override (code runs at install time)",
    ),
    (
        r"(?i)(pre_install|post_install|install_scripts)",
        "INSTALL-002",
        Severity::Critical,
        "setup.py custom install hook",
    ),
];

/// Lifecycle scripts of `package.json`.
pub const NPM_RULES: [RuleEntry; 2] = [
    (
        r#""(preinstall|postinstall|preuninstall|postuninstall)""#,
        "INSTALL-003",
        Severity::Critical,
        "npm lifecycle script (runs automatically on install)",
    ),
    (
        r#""(prepare|prepublish|prepublishOnly)""#,
        "INSTALL-004",
        Severity::High,
        "npm publish lifecycle script",
    ),
];

/// Install targets of `Makefile`, `makefile` and `*.mk`.
pub const MAKE_RULES: [RuleEntry; 2] = [
    (
        r"^install\s*:",
        "INSTALL-005",
        Severity::Medium,
        "Makefile install target",
    ),
    (
        r"^\.(PHONY|ONESHELL).*install",
        "INSTALL-006",
        Severity::Low,
        "Makefile install phony target",
    ),
];

/// Build hooks of `pyproject.toml`.
pub const PYPROJECT_RULES: [RuleEntry; 2] = [
    (
        r"\[tool\.setuptools\.cmdclass\]",
        "INSTALL-007",
        Severity::Critical,
        "pyproject.toml cmdclass override",
    ),
    (
        r"build-backend\s*=",
        "INSTALL-008",
        Severity::Low,
        "Custom build backend declared",
    ),
];

/// Agent tool configuration, looked for in every file whatever its name.
pub const MCP_CONFIG_RULES: [RuleEntry; 2] = [
    (
        r"claude_desktop_config|mcp_config\.json|\.mcp\.json",
        "INSTALL-MCP-001",
        Severity::Medium,
        "MCP configuration file detected",
    ),
    (
        r"mcpServers|mcp_servers",
        "INSTALL-MCP-002",
        Severity::Low,
        "MCP server registry entry",
    ),
];

/// Dynamic execution, unsafe deserialisation, process spawning, dynamic
/// imports and agent tool execution.
pub const CODE_RULES: [RuleEntry; 18] = [
    (
        r"\beval\s*\(",
        "CODE-001",
        Severity::High,
        "eval() call — arbitrary code execution",
    ),
    (
        r"\bexec\s*\(",
        "CODE-002",
        Severity::High,
        "exec() call — arbitrary code execution",
    ),
    (
        r"\bcompile\s*\(",
        "CODE-003",
        Severity::Medium,
        "compile() call — dynamic code compilation",
    ),
    (
        r"pickle\.(loads?|Unpickler)",
        "CODE-004",
        Severity::Critical,
        "pickle deserialization — arbitrary code execution",
    ),
    (
        r"marshal\.(loads?)",
        "CODE-005",
        Severity::High,
        "marshal deserialization — code execution risk",
    ),
    (
        r"yaml\.(unsafe_)?load\s*\(",
        "CODE-006",
        Severity::High,
        "YAML unsafe load — potential code execution",
    ),
    (
        r"\bchild_process\b",
        "CODE-007",
        Severity::High,
        "child_process usage — command execution",
    ),
    (
        r"\bFunction\s*\(",
        "CODE-008",
        Severity::High,
        "Function constructor — dynamic code execution",
    ),
    (
        r"new\s+Function\s*\(",
        "CODE-009",
        Severity::High,
        "new Function() — dynamic code execution",
    ),
    (
        r"__import__\s*\(",
        "CODE-010",
        Severity::High,
        "__import__() — dynamic import",
    ),
    (
        r"importlib\.import_module\s*\(",
        "CODE-011",
        Severity::Medium,
        "importlib.import_module — dynamic import",
    ),
    (
        r#"require\s*\(\s*[^'"]"#,
        "CODE-012",
        Severity::Medium,
        "dynamic require() — variable module loading",
    ),
    (
        r"subprocess\.(call|run|Popen|check_output)\s*\(",
        "CODE-013",
        Severity::Medium,
        "subprocess invocation — command execution",
    ),
    (
        r"os\.(system|popen|exec[lv]?[pe]?)\s*\(",
        "CODE-014",
        Severity::High,
        "os command execution",
    ),
    (
        r"shell\s*=\s*True",
        "CODE-015",
        Severity::High,
        "shell=True — shell injection risk",
    ),
    (
        r"mcp[_-]?server|MCPServer|create_mcp_server",
        "CODE-MCP-001",
        Severity::Medium,
        "MCP server creation detected",
    ),
    (
        r"tool_call|execute_tool|run_tool",
        "CODE-MCP-002",
        Severity::Medium,
        "MCP tool execution pattern",
    ),
    (
        r"allow_dangerous|skip_confirmation|auto_approve.*true",
        "CODE-MCP-003",
        Severity::High,
        "MCP dangerous permission bypass",
    ),
];

/// HTTP clients, webhooks, tunnelling services, raw sockets, DNS, encoding
/// before sending, `curl`/`wget` and agent transports.
pub const NETWORK_RULES: [RuleEntry; 14] = [
    (
        r"requests\.(get|post|put|delete|patch|head)\s*\(",
        "NET-001",
        Severity::Medium,
        "HTTP request via requests library",
    ),
    (
        r"urllib\.(request\.)?urlopen\s*\(",
        "NET-002",
        Severity::Medium,
        "HTTP request via urllib",
    ),
    (
        r"http\.client\.HTTP",
        "NET-003",
        Severity::Medium,
        "HTTP client connection",
    ),
    (
        r#"fetch\s*\(\s*['"]https?://"#,
        "NET-004",
        Severity::Medium,
        "fetch() to external URL",
    ),
    (
        r"axios\.(get|post|put|delete|patch)\s*\(",
        "NET-005",
        Severity::Medium,
        "HTTP request via axios",
    ),
    (
        r"(?i)(webhook|callback|notify).*https?://",
        "NET-006",
        Severity::High,
        "Webhook / callback URL detected",
    ),
    (
        r"https?://[^\s]*\.(ngrok|pipedream|requestbin|hookbin)",
        "NET-007",
        Severity::Critical,
        "Known exfiltration / tunneling service URL",
    ),
    (
        r"socket\.socket\s*\(",
        "NET-008",
        Severity::High,
        "Raw socket creation",
    ),
    (
        r#"\.connect\s*\(\s*\(?\s*['"]"#,
        "NET-009",
        Severity::Medium,
        "Socket connect to address",
    ),
    (
        r"dns\.(resolver|query)|getaddrinfo",
        "NET-010",
        Severity::Medium,
        "DNS resolution — possible DNS exfiltration",
    ),
    (
        r"(base64|b64)(encode|\.b64encode)\s*\(.*\.(read|getenv|environ)",
        "NET-011",
        Severity::High,
        "Data encoding before potential exfiltration",
    ),
    (
        r"(curl|wget)\s+.*(https?://)",
        "NET-012",
        Severity::Medium,
        "curl/wget command in code",
    ),
    (
        r"stdio_transport|sse_transport|StreamableHTTPTransport",
        "NET-MCP-001",
        Severity::Low,
        "MCP transport configuration",
    ),
    (
        r"mcp.*proxy|proxy.*mcp",
        "NET-MCP-002",
        Severity::High,
        "MCP proxy configuration - potential MITM",
    ),
];

/// Reads of sensitive environment variables, credential files, token
/// shapes, private keys and hardcoded secrets.
pub const CREDENTIAL_RULES: [RuleEntry; 12] = [
    (
        r#"os\.(environ|getenv)\s*[\[\(]\s*['"](AWS_|SECRET_|API_KEY|TOKEN|PASSWORD|DATABASE_URL|PRIVATE)"#,
        "CRED-001",
        Severity::High,
        "Environment variable access for sensitive key",
    ),
    (
        r"process\.env\.(AWS_|SECRET_|API_KEY|TOKEN|PASSWORD|DATABASE_URL|PRIVATE)",
        "CRED-002",
        Severity::High,
        "Node process.env access for sensitive key",
    ),
    (
        r"\.aws/(credentials|config)",
        "CRED-003",
        Severity::Critical,
        "AWS credentials file access",
    ),
    (
        r"AKIA[0-9A-Z]{16}",
        "CRED-004",
        Severity::Critical,
        "Hardcoded AWS access key ID",
    ),
    (
        r"\.ssh/(id_rsa|id_ed25519|id_ecdsa|authorized_keys)",
        "CRED-005",
        Severity::Critical,
        "SSH key file access",
    ),
    (
        r"-----BEGIN (RSA |EC |OPENSSH )?PRIVATE KEY-----",
        "CRED-006",
        Severity::Critical,
        "Embedded private key",
    ),
    (
        r#"(?i)(api[_-]?key|api[_-]?secret|access[_-]?token)\s*[:=]\s*['"][a-zA-Z0-9]{16,}"#,
        "CRED-007",
        Severity::High,
        "Hardcoded API key or secret",
    ),
    (
        r#"(?i)(password|passwd|pwd)\s*[:=]\s*['"][^'"]{8,}"#,
        "CRED-008",
        Severity::High,
        "Hardcoded password",
    ),
    (
        r#""type"\s*:\s*"service_account""#,
        "CRED-009",
        Severity::Critical,
        "GCP service account JSON key",
    ),
    (
        r"gh[pousr]_[A-Za-z0-9_]{36,}",
        "CRED-010",
        Severity::Critical,
        "GitHub personal access token",
    ),
    (
        r#"(?i)(bearer|authorization)\s*[:=]\s*['"][a-zA-Z0-9._\-]{20,}"#,
        "CRED-011",
        Severity::High,
        "Authorization / bearer token",
    ),
    (
        r"MCP_API_KEY|MCP_SECRET|MCP_TOKEN|mcp_auth",
        "CRED-MCP-001",
        Severity::Medium,
        "MCP credential reference",
    ),
];

/// Decoding calls, character-code construction, long runs of escapes,
/// ciphers and inline decompression. A run of hex or unicode escapes counts
/// from 8 escapes on.
pub const OBFUSCATION_RULES: [RuleEntry; 12] = [
    (
        r"base64\.(b64)?decode\s*\(",
        "OBFUSC-001",
        Severity::High,
        "Base64 decoding (potential obfuscated payload)",
    ),
    (
        r"atob\s*\(",
        "OBFUSC-002",
        Severity::High,
        "JavaScript atob() — base64 decoding",
    ),
    (
        r#"Buffer\.from\s*\([^)]*,\s*['"]base64['"]"#,
        "OBFUSC-003",
        Severity::High,
        "Node Buffer.from base64 decoding",
    ),
    (
        r"String\.fromCharCode\s*\(",
        "OBFUSC-004",
        Severity::High,
        "String.fromCharCode — character code obfuscation",
    ),
    (
        r"chr\s*\(\s*\d+\s*\)",
        "OBFUSC-005",
        Severity::Medium,
        "chr() — character code construction",
    ),
    (
        r"\\x[0-9a-fA-F]{2}(\\x[0-9a-fA-F]{2}){7,}",
        "OBFUSC-006",
        Severity::High,
        "Long hex-encoded string (likely obfuscated)",
    ),
    (
        r"0x[0-9a-fA-F]{2}\s*,\s*(0x[0-9a-fA-F]{2}\s*,?\s*){7,}",
        "OBFUSC-007",
        Severity::High,
        "Hex byte array (likely obfuscated payload)",
    ),
    (
        r"\\u[0-9a-fA-F]{4}(\\u[0-9a-fA-F]{4}){7,}",
        "OBFUSC-008",
        Severity::Medium,
        "Long unicode escape sequence",
    ),
    (
        r"codecs\.(decode|encode)\s*\(",
        "OBFUSC-009",
        Severity::Medium,
        "codecs decode/encode — potential obfuscation",
    ),
    (
        r#"(?i)(rot13|rot_13|caesar|cipher)\s*[\(\.]"#,
        "OBFUSC-010",
        Severity::Medium,
        "ROT13 / cipher usage — text obfuscation",
    ),
    (
        r"(zlib|gzip)\.(decompress|inflate)\s*\(",
        "OBFUSC-011",
        Severity::Medium,
        "Inline decompression — potential obfuscated payload",
    ),
    (
        r"tool_description.*base64|encoded_tool|obfuscated_prompt",
        "OBFUSC-MCP-001",
        Severity::High,
        "Obfuscated MCP tool definition",
    ),
];

} // verus!
