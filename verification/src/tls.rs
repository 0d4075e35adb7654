//! TLS: which files a server and a client use, and what binds a token to its
//! connection.

use crate::base64::{base64, base64_is_injective, encode_base64};
use crate::paths::{
    find_existing, first_existing, is_listed, join_path, path_join, the_first_existing_is_found,
};
use crate::text::{opt_str, opt_text, texts};
use crate::token::{token_actions, tokens_are_for_one_request};
use vstd::prelude::*;

verus! {

/// The label of the keying material that a connection is known by (RFC 9266).
pub const TLS_CHANNEL_BINDING_LABEL: &'static str = "EXPORTER-Channel-Binding";

/// How many bytes of keying material a connection is known by.
pub const TLS_CHANNEL_BINDING_LEN: usize = 32;

/// The files of a TLS server: its certificate, its key, and the CA that client
/// certificates are held to, where clients need one.
#[derive(Debug)]
pub struct TlsFiles {
    pub cert: String,
    pub key: String,
    pub client_ca: Option<String>,
}

/// The file of a credential: the one given on the command line, or else the one
/// of that name in the credentials directory, where it exists.
pub open spec fn credential(
    given: Option<Seq<char>>,
    creds_dir: Option<Seq<char>>,
    name: Seq<char>,
    existing: Seq<Seq<char>>,
) -> Option<Seq<char>> {
    match (given, creds_dir) {
        (Some(path), _) => Some(path),
        (None, Some(dir)) => if existing.contains(path_join(dir, name)) {
            Some(path_join(dir, name))
        } else {
            None
        },
        (None, None) => None,
    }
}

fn find_credential(
    given: Option<String>,
    creds_dir: Option<&str>,
    name: &str,
    existing: &Vec<String>,
) -> (path: Option<String>)
    ensures
        opt_text(path) == credential(
            opt_text(given),
            opt_str(creds_dir),
            name@,
            texts(existing@),
        ),
{
    if given.is_some() {
        return given;
    }
    match creds_dir {
        Some(dir) => {
            let path = join_path(dir, name);
            if is_listed(existing, path.as_str()) {
                Some(path)
            } else {
                None
            }
        },
        None => None,
    }
}

/// Which files a server uses that has these credentials: TLS takes a certificate
/// and its key, and a CA for clients takes TLS.
pub open spec fn is_tls_setup(
    cert: Option<Seq<char>>,
    key: Option<Seq<char>>,
    ca: Option<Seq<char>>,
    files: Result<Option<TlsFiles>, String>,
) -> bool {
    match (cert, key) {
        (Some(c), Some(k)) => files matches Ok(Some(tls)) && tls.cert@ == c && tls.key@ == k
            && opt_text(tls.client_ca) == ca,
        (None, None) => if ca is Some {
            files matches Err(error) && error@ == "--trust requires --cert and --key"@
        } else {
            files matches Ok(None)
        },
        _ => files matches Err(error) && error@ == "--cert and --key must be specified together"@,
    }
}

/// Which files the server uses for TLS, if it uses TLS: those given on the command
/// line, then those in the credentials directory. `existing` lists the files of
/// that directory that exist.
pub fn resolve_tls_acceptor(
    cli_cert: Option<String>,
    cli_key: Option<String>,
    cli_ca: Option<String>,
    creds_dir: Option<&str>,
    existing: &Vec<String>,
) -> (files: Result<Option<TlsFiles>, String>)
    ensures
        ({
            let dir = opt_str(creds_dir);
            let present = texts(existing@);
            is_tls_setup(
                credential(opt_text(cli_cert), dir, "cert"@, present),
                credential(opt_text(cli_key), dir, "key"@, present),
                credential(opt_text(cli_ca), dir, "trust"@, present),
                files,
            )
        }),
{
    let cert = find_credential(cli_cert, creds_dir, "cert", existing);
    let key = find_credential(cli_key, creds_dir, "key", existing);
    let client_ca = find_credential(cli_ca, creds_dir, "trust", existing);
    match (cert, key) {
        (Some(cert), Some(key)) => Ok(Some(TlsFiles { cert, key, client_ca })),
        (None, None) => {
            if client_ca.is_some() {
                Err("--trust requires --cert and --key".to_owned())
            } else {
                Ok(None)
            }
        },
        _ => Err("--cert and --key must be specified together".to_owned()),
    }
}

/// Whether some byte is not zero.
pub open spec fn is_some_nonzero(material: Seq<u8>) -> bool {
    exists|i: int| 0 <= i < material.len() && #[trigger] material[i] != 0
}

/// Whether some byte of the keying material is not zero.
pub fn has_nonzero(material: &[u8; 32]) -> (nonzero: bool)
    ensures
        nonzero == is_some_nonzero(material@),
{
    let mut i: usize = 0;
    while i < 32
        invariant
            i <= 32,
            forall|j: int| 0 <= j < i ==> #[trigger] material@[j] == 0,
        decreases 32 - i,
    {
        if material[i] != 0 {
            assert(material@[i as int] != 0);
            return true;
        }
        i = i + 1;
    }
    false
}

/// What a client knows a connection by: the base64 text of its keying material.
pub fn client_channel_binding(material: &[u8; 32]) -> (binding: String)
    ensures
        binding@ == base64(material@),
{
    encode_base64(material)
}

/// What the server knows a connection by. Keying material is never all zeros.
pub fn server_channel_binding(material: &[u8; 32]) -> (binding: String)
    requires
        is_some_nonzero(material@),
    ensures
        binding@ == base64(material@),
{
    encode_base64(material)
}

/// A token that was signed on one TLS connection is for no other: where the keying
/// material differs, what is signed differs.
pub proof fn tokens_do_not_cross_connections(
    method: Seq<char>,
    path: Seq<char>,
    nonce: Seq<char>,
    material: Seq<u8>,
    other_method: Seq<char>,
    other_path: Seq<char>,
    other_nonce: Seq<char>,
    other_material: Seq<u8>,
)
    requires
        material != other_material,
    ensures
        token_actions(method, path, nonce, Some(base64(material))) != token_actions(
            other_method,
            other_path,
            other_nonce,
            Some(base64(other_material)),
        ),
{
    if token_actions(method, path, nonce, Some(base64(material))) == token_actions(
        other_method,
        other_path,
        other_nonce,
        Some(base64(other_material)),
    ) {
        tokens_are_for_one_request(
            method,
            path,
            nonce,
            Some(base64(material)),
            other_method,
            other_path,
            other_nonce,
            Some(base64(other_material)),
        );
        base64_is_injective(material, other_material);
    }
}

/// Where a client's TLS files are looked for.
pub open spec fn client_places(
    config_home: Option<Seq<char>>,
    home: Option<Seq<char>>,
    creds_dir: Option<Seq<char>>,
) -> Seq<Seq<char>> {
    let configured = match config_home {
        Some(dir) => seq![path_join(dir, "varlink-httpd"@)],
        None => seq![],
    };
    let own = match home {
        Some(dir) => seq![path_join(dir, ".config/varlink-httpd"@)],
        None => seq![],
    };
    let credentials = match creds_dir {
        Some(dir) => seq![dir],
        None => seq![],
    };
    configured + own + credentials
}

/// Where a client's TLS files are looked for, in this order.
pub fn client_config_dirs(
    config_home: Option<&str>,
    home: Option<&str>,
    creds_dir: Option<&str>,
) -> (dirs: Vec<String>)
    ensures
        texts(dirs@) == client_places(opt_str(config_home), opt_str(home), opt_str(creds_dir)),
{
    let mut dirs: Vec<String> = Vec::new();
    if let Some(dir) = config_home {
        dirs.push(join_path(dir, "varlink-httpd"));
    }
    if let Some(dir) = home {
        dirs.push(join_path(dir, ".config/varlink-httpd"));
    }
    if let Some(dir) = creds_dir {
        dirs.push(dir.to_owned());
    }
    assert(texts(dirs@) == client_places(
        opt_str(config_home),
        opt_str(home),
        opt_str(creds_dir),
    ));
    dirs
}

/// The directory of a client's TLS files: the first that exists.
pub fn client_config_dir(
    config_home: Option<&str>,
    home: Option<&str>,
    creds_dir: Option<&str>,
    existing: &Vec<String>,
) -> (dir: Option<String>)
    ensures
        opt_text(dir) == first_existing(
            client_places(opt_str(config_home), opt_str(home), opt_str(creds_dir)),
            texts(existing@),
        ),
{
    let dirs = client_config_dirs(config_home, home, creds_dir);
    find_existing(&dirs, existing)
}

/// A client's certificate and its key.
#[derive(Debug)]
pub struct ClientIdentity {
    pub cert: String,
    pub key: String,
}

/// The TLS files of a client: its own certificate and key, and the CA that the
/// server's certificate is held to.
#[derive(Debug)]
pub struct ClientTlsFiles {
    pub identity: Option<ClientIdentity>,
    pub ca: Option<String>,
}

/// The files in a directory that a client uses where they exist.
pub fn client_file_places(dir: &str) -> (places: Vec<String>)
    ensures
        texts(places@) == seq![
            path_join(dir@, "client-cert-file"@),
            path_join(dir@, "client-key-file"@),
            path_join(dir@, "server-ca-file"@),
        ],
{
    let mut places: Vec<String> = Vec::new();
    places.push(join_path(dir, "client-cert-file"));
    places.push(join_path(dir, "client-key-file"));
    places.push(join_path(dir, "server-ca-file"));
    assert(texts(places@) == seq![
        path_join(dir@, "client-cert-file"@),
        path_join(dir@, "client-key-file"@),
        path_join(dir@, "server-ca-file"@),
    ]);
    places
}

/// Which TLS files of the directory a client uses: the certificate and the key
/// where both exist, and the CA where it exists.
pub fn build_ssl_connector(dir: &str, existing: &Vec<String>) -> (files: ClientTlsFiles)
    ensures
        ({
            let cert = path_join(dir@, "client-cert-file"@);
            let key = path_join(dir@, "client-key-file"@);
            let ca = path_join(dir@, "server-ca-file"@);
            let present = texts(existing@);
            &&& match files.identity {
                Some(identity) => present.contains(cert) && present.contains(key) && identity.cert@
                    == cert && identity.key@ == key,
                None => !(present.contains(cert) && present.contains(key)),
            }
            &&& opt_text(files.ca) == if present.contains(ca) {
                Some(ca)
            } else {
                None
            }
        }),
{
    let cert = join_path(dir, "client-cert-file");
    let key = join_path(dir, "client-key-file");
    let ca = join_path(dir, "server-ca-file");
    let identity = if is_listed(existing, cert.as_str()) && is_listed(existing, key.as_str()) {
        Some(ClientIdentity { cert, key })
    } else {
        None
    };
    let ca = if is_listed(existing, ca.as_str()) {
        Some(ca)
    } else {
        None
    };
    ClientTlsFiles { identity, ca }
}

/// A file that is given is used whether it exists or not. Without one, the file of that
/// name in the credentials directory is used exactly when it exists.
pub proof fn given_files_go_first(
    given: Seq<char>,
    dir: Seq<char>,
    creds_dir: Option<Seq<char>>,
    name: Seq<char>,
    existing: Seq<Seq<char>>,
)
    ensures
        credential(Some(given), creds_dir, name, existing) == Some(given),
        credential(None, None, name, existing) is None,
        credential(None, Some(dir), name, existing) is Some <==> existing.contains(
            path_join(dir, name),
        ),
        credential(None, Some(dir), name, existing) matches Some(path) ==> path == path_join(
            dir,
            name,
        ),
{
}

/// A server uses TLS exactly when it has both a certificate and a key, and is refused when
/// it has one of them, or a CA for clients without them.
pub proof fn tls_takes_a_certificate_and_its_key(
    cli_cert: Option<String>,
    cli_key: Option<String>,
    cli_ca: Option<String>,
    creds_dir: Option<&str>,
    existing: &Vec<String>,
    files: Result<Option<TlsFiles>, String>,
)
    requires
        call_ensures(
            resolve_tls_acceptor,
            (cli_cert, cli_key, cli_ca, creds_dir, existing),
            files,
        ),
    ensures
        ({
            let dir = opt_str(creds_dir);
            let present = texts(existing@);
            let cert = credential(opt_text(cli_cert), dir, "cert"@, present);
            let key = credential(opt_text(cli_key), dir, "key"@, present);
            let ca = credential(opt_text(cli_ca), dir, "trust"@, present);
            &&& (files matches Ok(Some(_))) <==> cert is Some && key is Some
            &&& (files matches Ok(None)) <==> cert is None && key is None && ca is None
            &&& files is Err <==> (cert is Some) != (key is Some) || (cert is None && key is None
                && ca is Some)
            &&& files matches Ok(Some(tls)) ==> cert == Some(tls.cert@) && key == Some(tls.key@)
                && ca == opt_text(tls.client_ca)
            &&& files matches Err(error) ==> error@ == if cert is None && key is None {
                "--trust requires --cert and --key"@
            } else {
                "--cert and --key must be specified together"@
            }
        }),
{
}

/// A server that is given its files uses these, whatever else exists.
pub proof fn given_tls_files_are_used(
    cert: String,
    key: String,
    ca: Option<String>,
    creds_dir: Option<&str>,
    existing: &Vec<String>,
    files: Result<Option<TlsFiles>, String>,
)
    requires
        call_ensures(
            resolve_tls_acceptor,
            (Some(cert), Some(key), ca, creds_dir, existing),
            files,
        ),
    ensures
        files matches Ok(Some(tls)) && tls.cert@ == cert@ && tls.key@ == key@ && (
        ca matches Some(given) ==> (tls.client_ca matches Some(used) && used@ == given@)),
{
}

/// Client and server know a connection by the same text, which says all of its keying
/// material.
pub proof fn both_sides_know_a_connection_alike(
    material: &[u8; 32],
    client: String,
    server: String,
    nonzero: bool,
)
    requires
        call_ensures(client_channel_binding, (material,), client),
        call_ensures(server_channel_binding, (material,), server),
        call_ensures(has_nonzero, (material,), nonzero),
    ensures
        client@ == server@,
        client@ == base64(material@),
        !nonzero <==> material@ == Seq::new(32, |i: int| 0u8),
{
    if !nonzero {
        assert(material@ == Seq::new(32, |i: int| 0u8));
    }
    if nonzero {
        let i = choose|i: int| 0 <= i < material@.len() && #[trigger] material@[i] != 0;
        assert(material@[i] != Seq::new(32, |i: int| 0u8)[i]);
    }
}

/// A client's files are looked for in the configured directory, then in the home, then
/// among the credentials, and only in those of the three that there are.
pub proof fn places_have_their_order(
    config_home: Option<Seq<char>>,
    home: Option<Seq<char>>,
    creds_dir: Option<Seq<char>>,
    config: Seq<char>,
    own: Seq<char>,
    creds: Seq<char>,
)
    ensures
        client_places(Some(config), home, creds_dir) == seq![
            path_join(config, "varlink-httpd"@),
        ] + client_places(None, home, creds_dir),
        client_places(None, Some(own), creds_dir) == seq![
            path_join(own, ".config/varlink-httpd"@),
        ] + client_places(None, None, creds_dir),
        client_places(None, None, Some(creds)) == seq![creds],
        client_places(None, None, None) == Seq::<Seq<char>>::empty(),
        client_places(config_home, home, creds_dir) == client_places(config_home, None, None)
            + client_places(None, home, None) + client_places(None, None, creds_dir),
{
    assert(client_places(Some(config), home, creds_dir) == seq![path_join(config, "varlink-httpd"@)]
        + client_places(None, home, creds_dir));
    assert(client_places(None, Some(own), creds_dir) == seq![
        path_join(own, ".config/varlink-httpd"@),
    ] + client_places(None, None, creds_dir));
    assert(client_places(config_home, home, creds_dir) == client_places(config_home, None, None)
        + client_places(None, home, None) + client_places(None, None, creds_dir));
}

/// The directory of a client's files is the first of its places that exists.
pub proof fn the_first_directory_is_used(
    config_home: Option<&str>,
    home: Option<&str>,
    creds_dir: Option<&str>,
    existing: &Vec<String>,
    dir: Option<String>,
    at: int,
)
    requires
        call_ensures(client_config_dir, (config_home, home, creds_dir, existing), dir),
        ({
            let places = client_places(opt_str(config_home), opt_str(home), opt_str(creds_dir));
            &&& 0 <= at <= places.len()
            &&& forall|i: int| 0 <= i < at ==> !texts(existing@).contains(#[trigger] places[i])
            &&& at < places.len() ==> texts(existing@).contains(places[at])
        }),
    ensures
        ({
            let places = client_places(opt_str(config_home), opt_str(home), opt_str(creds_dir));
            &&& dir is Some <==> at < places.len()
            &&& dir matches Some(path) ==> path@ == places[at]
        }),
{
    let places = client_places(opt_str(config_home), opt_str(home), opt_str(creds_dir));
    the_first_existing_is_found(places, texts(existing@), at);
}

/// A client shows a certificate exactly when both the certificate and its key are there,
/// and holds the server to a CA exactly when that is there, whatever the others do.
pub proof fn client_files_are_used_where_they_exist(
    dir: &str,
    existing: &Vec<String>,
    files: ClientTlsFiles,
    places: Vec<String>,
)
    requires
        call_ensures(build_ssl_connector, (dir, existing), files),
        call_ensures(client_file_places, (dir,), places),
    ensures
        places@.len() == 3,
        places@[0]@ == path_join(dir@, "client-cert-file"@),
        places@[1]@ == path_join(dir@, "client-key-file"@),
        places@[2]@ == path_join(dir@, "server-ca-file"@),
        files.identity is Some <==> texts(existing@).contains(places@[0]@) && texts(
            existing@,
        ).contains(places@[1]@),
        files.identity matches Some(identity) ==> identity.cert@ == places@[0]@ && identity.key@
            == places@[1]@,
        files.ca is Some <==> texts(existing@).contains(places@[2]@),
        files.ca matches Some(ca) ==> ca@ == places@[2]@,
{
    let all = texts(places@);
    assert(all.len() == 3);
    assert(all[0] == places@[0]@ && all[1] == places@[1]@ && all[2] == places@[2]@);
}

/// A connection is known by the keying material that RFC 9266 names, all 32 bytes of it.
pub proof fn connections_are_known_as_agreed(material: [u8; 32])
    ensures
        TLS_CHANNEL_BINDING_LABEL@ == "EXPORTER-Channel-Binding"@,
        material@.len() == TLS_CHANNEL_BINDING_LEN,
{
}

} // verus!
