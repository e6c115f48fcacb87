use vstd::prelude::*;
use vstd::string::*;

verus! {

/// Base URL of the backend generation API.
pub const GEMINI_CODE_ASSIST_ENDPOINT: &'static str = "https://cloudcode-pa.googleapis.com";

/// Redirect URI that the one-shot authorization callback listener serves.
pub const GEMINI_REDIRECT_URI: &'static str = "http://localhost:8085/oauth2callback";

/// The fixed client-identification headers that the backend requires on
/// every call; it rejects requests without them.
pub fn code_assist_headers() -> (r: Vec<(String, String)>)
    ensures
        r@.len() == 3,
        r@[0].0@ == "User-Agent"@ && r@[0].1@ == "google-api-nodejs-client/9.15.1"@,
        r@[1].0@ == "X-Goog-Api-Client"@ && r@[1].1@ == "gl-node/22.17.0"@,
        r@[2].0@ == "Client-Metadata"@ && r@[2].1@
            == "ideType=IDE_UNSPECIFIED,platform=PLATFORM_UNSPECIFIED,pluginType=GEMINI"@,
{
    let mut headers: Vec<(String, String)> = Vec::new();
    headers.push(
        (String::from_str("User-Agent"), String::from_str("google-api-nodejs-client/9.15.1")),
    );
    headers.push((String::from_str("X-Goog-Api-Client"), String::from_str("gl-node/22.17.0")));
    headers.push(
        (
            String::from_str("Client-Metadata"),
            String::from_str("ideType=IDE_UNSPECIFIED,platform=PLATFORM_UNSPECIFIED,pluginType=GEMINI"),
        ),
    );
    headers
}

} // verus!
