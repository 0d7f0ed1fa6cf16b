use vstd::prelude::*;

verus! {

/// The bytes of `Session closed\n`.
pub open spec fn session_closed_spec() -> Seq<u8> {
    seq![83u8, 101u8, 115u8, 115u8, 105u8, 111u8, 110u8, 32u8, 99u8, 108u8, 111u8, 115u8, 101u8, 100u8, 10u8]
}

/// `Session closed\n` as a new vector.
pub fn session_closed() -> (r: Vec<u8>)
    ensures
        r@ == session_closed_spec(),
{
    vec![83u8, 101u8, 115u8, 115u8, 105u8, 111u8, 110u8, 32u8, 99u8, 108u8, 111u8, 115u8, 101u8, 100u8, 10u8]
}

/// The bytes of `cd: missing argument\n`.
pub open spec fn cd_missing_spec() -> Seq<u8> {
    seq![99u8, 100u8, 58u8, 32u8, 109u8, 105u8, 115u8, 115u8, 105u8, 110u8, 103u8, 32u8, 97u8, 114u8, 103u8, 117u8, 109u8, 101u8, 110u8, 116u8, 10u8]
}

/// `cd: missing argument\n` as a new vector.
pub fn cd_missing() -> (r: Vec<u8>)
    ensures
        r@ == cd_missing_spec(),
{
    vec![99u8, 100u8, 58u8, 32u8, 109u8, 105u8, 115u8, 115u8, 105u8, 110u8, 103u8, 32u8, 97u8, 114u8, 103u8, 117u8, 109u8, 101u8, 110u8, 116u8, 10u8]
}

/// The bytes of `cd: `.
pub open spec fn cd_prefix_spec() -> Seq<u8> {
    seq![99u8, 100u8, 58u8, 32u8]
}

/// `cd: ` as a new vector.
pub fn cd_prefix() -> (r: Vec<u8>)
    ensures
        r@ == cd_prefix_spec(),
{
    vec![99u8, 100u8, 58u8, 32u8]
}

/// The bytes of `: No such directory\n`.
pub open spec fn cd_no_dir_spec() -> Seq<u8> {
    seq![58u8, 32u8, 78u8, 111u8, 32u8, 115u8, 117u8, 99u8, 104u8, 32u8, 100u8, 105u8, 114u8, 101u8, 99u8, 116u8, 111u8, 114u8, 121u8, 10u8]
}

/// `: No such directory\n` as a new vector.
pub fn cd_no_dir() -> (r: Vec<u8>)
    ensures
        r@ == cd_no_dir_spec(),
{
    vec![58u8, 32u8, 78u8, 111u8, 32u8, 115u8, 117u8, 99u8, 104u8, 32u8, 100u8, 105u8, 114u8, 101u8, 99u8, 116u8, 111u8, 114u8, 121u8, 10u8]
}

/// The bytes of `pwd: error\n`.
pub open spec fn pwd_error_spec() -> Seq<u8> {
    seq![112u8, 119u8, 100u8, 58u8, 32u8, 101u8, 114u8, 114u8, 111u8, 114u8, 10u8]
}

/// `pwd: error\n` as a new vector.
pub fn pwd_error() -> (r: Vec<u8>)
    ensures
        r@ == pwd_error_spec(),
{
    vec![112u8, 119u8, 100u8, 58u8, 32u8, 101u8, 114u8, 114u8, 111u8, 114u8, 10u8]
}

/// The bytes of `ls: cannot open directory\n`.
pub open spec fn ls_error_spec() -> Seq<u8> {
    seq![108u8, 115u8, 58u8, 32u8, 99u8, 97u8, 110u8, 110u8, 111u8, 116u8, 32u8, 111u8, 112u8, 101u8, 110u8, 32u8, 100u8, 105u8, 114u8, 101u8, 99u8, 116u8, 111u8, 114u8, 121u8, 10u8]
}

/// `ls: cannot open directory\n` as a new vector.
pub fn ls_error() -> (r: Vec<u8>)
    ensures
        r@ == ls_error_spec(),
{
    vec![108u8, 115u8, 58u8, 32u8, 99u8, 97u8, 110u8, 110u8, 111u8, 116u8, 32u8, 111u8, 112u8, 101u8, 110u8, 32u8, 100u8, 105u8, 114u8, 101u8, 99u8, 116u8, 111u8, 114u8, 121u8, 10u8]
}

/// The bytes of `  `.
pub open spec fn separator_spec() -> Seq<u8> {
    seq![32u8, 32u8]
}

/// `  ` as a new vector.
pub fn separator() -> (r: Vec<u8>)
    ensures
        r@ == separator_spec(),
{
    vec![32u8, 32u8]
}

/// The bytes of `\n`.
pub open spec fn newline_spec() -> Seq<u8> {
    seq![10u8]
}

/// `\n` as a new vector.
pub fn newline() -> (r: Vec<u8>)
    ensures
        r@ == newline_spec(),
{
    vec![10u8]
}

/// The bytes of `Active threads: `.
pub open spec fn threads_prefix_spec() -> Seq<u8> {
    seq![65u8, 99u8, 116u8, 105u8, 118u8, 101u8, 32u8, 116u8, 104u8, 114u8, 101u8, 97u8, 100u8, 115u8, 58u8, 32u8]
}

/// `Active threads: ` as a new vector.
pub fn threads_prefix() -> (r: Vec<u8>)
    ensures
        r@ == threads_prefix_spec(),
{
    vec![65u8, 99u8, 116u8, 105u8, 118u8, 101u8, 32u8, 116u8, 104u8, 114u8, 101u8, 97u8, 100u8, 115u8, 58u8, 32u8]
}

/// The bytes of ` / `.
pub open spec fn threads_sep_spec() -> Seq<u8> {
    seq![32u8, 47u8, 32u8]
}

/// ` / ` as a new vector.
pub fn threads_sep() -> (r: Vec<u8>)
    ensures
        r@ == threads_sep_spec(),
{
    vec![32u8, 47u8, 32u8]
}

/// The bytes of `External commands not yet supported in session mode\n`.
pub open spec fn no_external_spec() -> Seq<u8> {
    seq![69u8, 120u8, 116u8, 101u8, 114u8, 110u8, 97u8, 108u8, 32u8, 99u8, 111u8, 109u8, 109u8, 97u8, 110u8, 100u8, 115u8, 32u8, 110u8, 111u8, 116u8, 32u8, 121u8, 101u8, 116u8, 32u8, 115u8, 117u8, 112u8, 112u8, 111u8, 114u8, 116u8, 101u8, 100u8, 32u8, 105u8, 110u8, 32u8, 115u8, 101u8, 115u8, 115u8, 105u8, 111u8, 110u8, 32u8, 109u8, 111u8, 100u8, 101u8, 10u8]
}

/// `External commands not yet supported in session mode\n` as a new vector.
pub fn no_external() -> (r: Vec<u8>)
    ensures
        r@ == no_external_spec(),
{
    vec![69u8, 120u8, 116u8, 101u8, 114u8, 110u8, 97u8, 108u8, 32u8, 99u8, 111u8, 109u8, 109u8, 97u8, 110u8, 100u8, 115u8, 32u8, 110u8, 111u8, 116u8, 32u8, 121u8, 101u8, 116u8, 32u8, 115u8, 117u8, 112u8, 112u8, 111u8, 114u8, 116u8, 101u8, 100u8, 32u8, 105u8, 110u8, 32u8, 115u8, 101u8, 115u8, 115u8, 105u8, 111u8, 110u8, 32u8, 109u8, 111u8, 100u8, 101u8, 10u8]
}

/// The bytes of `Welcome to ReShell!\n$ `.
pub open spec fn welcome_spec() -> Seq<u8> {
    seq![87u8, 101u8, 108u8, 99u8, 111u8, 109u8, 101u8, 32u8, 116u8, 111u8, 32u8, 82u8, 101u8, 83u8, 104u8, 101u8, 108u8, 108u8, 33u8, 10u8, 36u8, 32u8]
}

/// `Welcome to ReShell!\n$ ` as a new vector.
pub fn welcome() -> (r: Vec<u8>)
    ensures
        r@ == welcome_spec(),
{
    vec![87u8, 101u8, 108u8, 99u8, 111u8, 109u8, 101u8, 32u8, 116u8, 111u8, 32u8, 82u8, 101u8, 83u8, 104u8, 101u8, 108u8, 108u8, 33u8, 10u8, 36u8, 32u8]
}

/// The bytes of `$ `.
pub open spec fn prompt_spec() -> Seq<u8> {
    seq![36u8, 32u8]
}

/// `$ ` as a new vector.
pub fn prompt() -> (r: Vec<u8>)
    ensures
        r@ == prompt_spec(),
{
    vec![36u8, 32u8]
}

/// The bytes of `\x08 \x08`.
pub open spec fn erase_spec() -> Seq<u8> {
    seq![8u8, 32u8, 8u8]
}

/// `\x08 \x08` as a new vector.
pub fn erase() -> (r: Vec<u8>)
    ensures
        r@ == erase_spec(),
{
    vec![8u8, 32u8, 8u8]
}

/// The bytes of `exit`.
pub open spec fn cmd_exit_spec() -> Seq<u8> {
    seq![101u8, 120u8, 105u8, 116u8]
}

/// `exit` as a new vector.
pub fn cmd_exit() -> (r: Vec<u8>)
    ensures
        r@ == cmd_exit_spec(),
{
    vec![101u8, 120u8, 105u8, 116u8]
}

/// The bytes of `pwd`.
pub open spec fn cmd_pwd_spec() -> Seq<u8> {
    seq![112u8, 119u8, 100u8]
}

/// `pwd` as a new vector.
pub fn cmd_pwd() -> (r: Vec<u8>)
    ensures
        r@ == cmd_pwd_spec(),
{
    vec![112u8, 119u8, 100u8]
}

/// The bytes of `cd`.
pub open spec fn cmd_cd_spec() -> Seq<u8> {
    seq![99u8, 100u8]
}

/// `cd` as a new vector.
pub fn cmd_cd() -> (r: Vec<u8>)
    ensures
        r@ == cmd_cd_spec(),
{
    vec![99u8, 100u8]
}

/// The bytes of `ls`.
pub open spec fn cmd_ls_spec() -> Seq<u8> {
    seq![108u8, 115u8]
}

/// `ls` as a new vector.
pub fn cmd_ls() -> (r: Vec<u8>)
    ensures
        r@ == cmd_ls_spec(),
{
    vec![108u8, 115u8]
}

/// The bytes of `echo`.
pub open spec fn cmd_echo_spec() -> Seq<u8> {
    seq![101u8, 99u8, 104u8, 111u8]
}

/// `echo` as a new vector.
pub fn cmd_echo() -> (r: Vec<u8>)
    ensures
        r@ == cmd_echo_spec(),
{
    vec![101u8, 99u8, 104u8, 111u8]
}

/// The bytes of `export`.
pub open spec fn cmd_export_spec() -> Seq<u8> {
    seq![101u8, 120u8, 112u8, 111u8, 114u8, 116u8]
}

/// `export` as a new vector.
pub fn cmd_export() -> (r: Vec<u8>)
    ensures
        r@ == cmd_export_spec(),
{
    vec![101u8, 120u8, 112u8, 111u8, 114u8, 116u8]
}

/// The bytes of `env`.
pub open spec fn cmd_env_spec() -> Seq<u8> {
    seq![101u8, 110u8, 118u8]
}

/// `env` as a new vector.
pub fn cmd_env() -> (r: Vec<u8>)
    ensures
        r@ == cmd_env_spec(),
{
    vec![101u8, 110u8, 118u8]
}

/// The bytes of `threads`.
pub open spec fn cmd_threads_spec() -> Seq<u8> {
    seq![116u8, 104u8, 114u8, 101u8, 97u8, 100u8, 115u8]
}

/// `threads` as a new vector.
pub fn cmd_threads() -> (r: Vec<u8>)
    ensures
        r@ == cmd_threads_spec(),
{
    vec![116u8, 104u8, 114u8, 101u8, 97u8, 100u8, 115u8]
}

/// The bytes of `HTTP/1.1 101 Switching Protocols\r\nUpgrade: websocket\r\nConnection: Upgrade\r\nSec-WebSocket-Accept: `.
pub open spec fn ws_accept_head_spec() -> Seq<u8> {
    seq![72u8, 84u8, 84u8, 80u8, 47u8, 49u8, 46u8, 49u8, 32u8, 49u8, 48u8, 49u8, 32u8, 83u8, 119u8, 105u8, 116u8, 99u8, 104u8, 105u8, 110u8, 103u8, 32u8, 80u8, 114u8, 111u8, 116u8, 111u8, 99u8, 111u8, 108u8, 115u8, 13u8, 10u8, 85u8, 112u8, 103u8, 114u8, 97u8, 100u8, 101u8, 58u8, 32u8, 119u8, 101u8, 98u8, 115u8, 111u8, 99u8, 107u8, 101u8, 116u8, 13u8, 10u8, 67u8, 111u8, 110u8, 110u8, 101u8, 99u8, 116u8, 105u8, 111u8, 110u8, 58u8, 32u8, 85u8, 112u8, 103u8, 114u8, 97u8, 100u8, 101u8, 13u8, 10u8, 83u8, 101u8, 99u8, 45u8, 87u8, 101u8, 98u8, 83u8, 111u8, 99u8, 107u8, 101u8, 116u8, 45u8, 65u8, 99u8, 99u8, 101u8, 112u8, 116u8, 58u8, 32u8]
}

/// `HTTP/1.1 101 Switching Protocols\r\nUpgrade: websocket\r\nConnection: Upgrade\r\nSec-WebSocket-Accept: ` as a new vector.
pub fn ws_accept_head() -> (r: Vec<u8>)
    ensures
        r@ == ws_accept_head_spec(),
{
    vec![72u8, 84u8, 84u8, 80u8, 47u8, 49u8, 46u8, 49u8, 32u8, 49u8, 48u8, 49u8, 32u8, 83u8, 119u8, 105u8, 116u8, 99u8, 104u8, 105u8, 110u8, 103u8, 32u8, 80u8, 114u8, 111u8, 116u8, 111u8, 99u8, 111u8, 108u8, 115u8, 13u8, 10u8, 85u8, 112u8, 103u8, 114u8, 97u8, 100u8, 101u8, 58u8, 32u8, 119u8, 101u8, 98u8, 115u8, 111u8, 99u8, 107u8, 101u8, 116u8, 13u8, 10u8, 67u8, 111u8, 110u8, 110u8, 101u8, 99u8, 116u8, 105u8, 111u8, 110u8, 58u8, 32u8, 85u8, 112u8, 103u8, 114u8, 97u8, 100u8, 101u8, 13u8, 10u8, 83u8, 101u8, 99u8, 45u8, 87u8, 101u8, 98u8, 83u8, 111u8, 99u8, 107u8, 101u8, 116u8, 45u8, 65u8, 99u8, 99u8, 101u8, 112u8, 116u8, 58u8, 32u8]
}

/// The bytes of `\r\n\r\n`.
pub open spec fn header_end_spec() -> Seq<u8> {
    seq![13u8, 10u8, 13u8, 10u8]
}

/// `\r\n\r\n` as a new vector.
pub fn header_end() -> (r: Vec<u8>)
    ensures
        r@ == header_end_spec(),
{
    vec![13u8, 10u8, 13u8, 10u8]
}

/// The bytes of `258EAFA5-E914-47DA-95CA-C5AB0DC85B11`.
pub open spec fn ws_guid_spec() -> Seq<u8> {
    seq![50u8, 53u8, 56u8, 69u8, 65u8, 70u8, 65u8, 53u8, 45u8, 69u8, 57u8, 49u8, 52u8, 45u8, 52u8, 55u8, 68u8, 65u8, 45u8, 57u8, 53u8, 67u8, 65u8, 45u8, 67u8, 53u8, 65u8, 66u8, 48u8, 68u8, 67u8, 56u8, 53u8, 66u8, 49u8, 49u8]
}

/// `258EAFA5-E914-47DA-95CA-C5AB0DC85B11` as a new vector.
pub fn ws_guid() -> (r: Vec<u8>)
    ensures
        r@ == ws_guid_spec(),
{
    vec![50u8, 53u8, 56u8, 69u8, 65u8, 70u8, 65u8, 53u8, 45u8, 69u8, 57u8, 49u8, 52u8, 45u8, 52u8, 55u8, 68u8, 65u8, 45u8, 57u8, 53u8, 67u8, 65u8, 45u8, 67u8, 53u8, 65u8, 66u8, 48u8, 68u8, 67u8, 56u8, 53u8, 66u8, 49u8, 49u8]
}

/// The bytes of `Sec-WebSocket-Key: `.
pub open spec fn ws_key_header_spec() -> Seq<u8> {
    seq![83u8, 101u8, 99u8, 45u8, 87u8, 101u8, 98u8, 83u8, 111u8, 99u8, 107u8, 101u8, 116u8, 45u8, 75u8, 101u8, 121u8, 58u8, 32u8]
}

/// `Sec-WebSocket-Key: ` as a new vector.
pub fn ws_key_header() -> (r: Vec<u8>)
    ensures
        r@ == ws_key_header_spec(),
{
    vec![83u8, 101u8, 99u8, 45u8, 87u8, 101u8, 98u8, 83u8, 111u8, 99u8, 107u8, 101u8, 116u8, 45u8, 75u8, 101u8, 121u8, 58u8, 32u8]
}

/// The bytes of `HTTP/1.1 405 Method Not Allowed\r\nContent-Type: text/html\r\nContent-Length: 24\r\n\r\n<h1>405 Not Allowed</h1>`.
pub open spec fn not_allowed_spec() -> Seq<u8> {
    seq![72u8, 84u8, 84u8, 80u8, 47u8, 49u8, 46u8, 49u8, 32u8, 52u8, 48u8, 53u8, 32u8, 77u8, 101u8, 116u8, 104u8, 111u8, 100u8, 32u8, 78u8, 111u8, 116u8, 32u8, 65u8, 108u8, 108u8, 111u8, 119u8, 101u8, 100u8, 13u8, 10u8, 67u8, 111u8, 110u8, 116u8, 101u8, 110u8, 116u8, 45u8, 84u8, 121u8, 112u8, 101u8, 58u8, 32u8, 116u8, 101u8, 120u8, 116u8, 47u8, 104u8, 116u8, 109u8, 108u8, 13u8, 10u8, 67u8, 111u8, 110u8, 116u8, 101u8, 110u8, 116u8, 45u8, 76u8, 101u8, 110u8, 103u8, 116u8, 104u8, 58u8, 32u8, 50u8, 52u8, 13u8, 10u8, 13u8, 10u8, 60u8, 104u8, 49u8, 62u8, 52u8, 48u8, 53u8, 32u8, 78u8, 111u8, 116u8, 32u8, 65u8, 108u8, 108u8, 111u8, 119u8, 101u8, 100u8, 60u8, 47u8, 104u8, 49u8, 62u8]
}

/// `HTTP/1.1 405 Method Not Allowed\r\nContent-Type: text/html\r\nContent-Length: 24\r\n\r\n<h1>405 Not Allowed</h1>` as a new vector.
pub fn not_allowed() -> (r: Vec<u8>)
    ensures
        r@ == not_allowed_spec(),
{
    vec![72u8, 84u8, 84u8, 80u8, 47u8, 49u8, 46u8, 49u8, 32u8, 52u8, 48u8, 53u8, 32u8, 77u8, 101u8, 116u8, 104u8, 111u8, 100u8, 32u8, 78u8, 111u8, 116u8, 32u8, 65u8, 108u8, 108u8, 111u8, 119u8, 101u8, 100u8, 13u8, 10u8, 67u8, 111u8, 110u8, 116u8, 101u8, 110u8, 116u8, 45u8, 84u8, 121u8, 112u8, 101u8, 58u8, 32u8, 116u8, 101u8, 120u8, 116u8, 47u8, 104u8, 116u8, 109u8, 108u8, 13u8, 10u8, 67u8, 111u8, 110u8, 116u8, 101u8, 110u8, 116u8, 45u8, 76u8, 101u8, 110u8, 103u8, 116u8, 104u8, 58u8, 32u8, 50u8, 52u8, 13u8, 10u8, 13u8, 10u8, 60u8, 104u8, 49u8, 62u8, 52u8, 48u8, 53u8, 32u8, 78u8, 111u8, 116u8, 32u8, 65u8, 108u8, 108u8, 111u8, 119u8, 101u8, 100u8, 60u8, 47u8, 104u8, 49u8, 62u8]
}

/// The bytes of `HTTP/1.1 404 Not Found\r\nContent-Type: text/html\r\nContent-Length: 22\r\n\r\n<h1>404 Not Found</h1>`.
pub open spec fn not_found_spec() -> Seq<u8> {
    seq![72u8, 84u8, 84u8, 80u8, 47u8, 49u8, 46u8, 49u8, 32u8, 52u8, 48u8, 52u8, 32u8, 78u8, 111u8, 116u8, 32u8, 70u8, 111u8, 117u8, 110u8, 100u8, 13u8, 10u8, 67u8, 111u8, 110u8, 116u8, 101u8, 110u8, 116u8, 45u8, 84u8, 121u8, 112u8, 101u8, 58u8, 32u8, 116u8, 101u8, 120u8, 116u8, 47u8, 104u8, 116u8, 109u8, 108u8, 13u8, 10u8, 67u8, 111u8, 110u8, 116u8, 101u8, 110u8, 116u8, 45u8, 76u8, 101u8, 110u8, 103u8, 116u8, 104u8, 58u8, 32u8, 50u8, 50u8, 13u8, 10u8, 13u8, 10u8, 60u8, 104u8, 49u8, 62u8, 52u8, 48u8, 52u8, 32u8, 78u8, 111u8, 116u8, 32u8, 70u8, 111u8, 117u8, 110u8, 100u8, 60u8, 47u8, 104u8, 49u8, 62u8]
}

/// `HTTP/1.1 404 Not Found\r\nContent-Type: text/html\r\nContent-Length: 22\r\n\r\n<h1>404 Not Found</h1>` as a new vector.
pub fn not_found() -> (r: Vec<u8>)
    ensures
        r@ == not_found_spec(),
{
    vec![72u8, 84u8, 84u8, 80u8, 47u8, 49u8, 46u8, 49u8, 32u8, 52u8, 48u8, 52u8, 32u8, 78u8, 111u8, 116u8, 32u8, 70u8, 111u8, 117u8, 110u8, 100u8, 13u8, 10u8, 67u8, 111u8, 110u8, 116u8, 101u8, 110u8, 116u8, 45u8, 84u8, 121u8, 112u8, 101u8, 58u8, 32u8, 116u8, 101u8, 120u8, 116u8, 47u8, 104u8, 116u8, 109u8, 108u8, 13u8, 10u8, 67u8, 111u8, 110u8, 116u8, 101u8, 110u8, 116u8, 45u8, 76u8, 101u8, 110u8, 103u8, 116u8, 104u8, 58u8, 32u8, 50u8, 50u8, 13u8, 10u8, 13u8, 10u8, 60u8, 104u8, 49u8, 62u8, 52u8, 48u8, 52u8, 32u8, 78u8, 111u8, 116u8, 32u8, 70u8, 111u8, 117u8, 110u8, 100u8, 60u8, 47u8, 104u8, 49u8, 62u8]
}

/// The bytes of `GET`.
pub open spec fn method_get_spec() -> Seq<u8> {
    seq![71u8, 69u8, 84u8]
}

/// `GET` as a new vector.
pub fn method_get() -> (r: Vec<u8>)
    ensures
        r@ == method_get_spec(),
{
    vec![71u8, 69u8, 84u8]
}

/// The bytes of `/`.
pub open spec fn path_root_spec() -> Seq<u8> {
    seq![47u8]
}

/// `/` as a new vector.
pub fn path_root() -> (r: Vec<u8>)
    ensures
        r@ == path_root_spec(),
{
    vec![47u8]
}

/// The bytes of `/terminal.html`.
pub open spec fn path_html_spec() -> Seq<u8> {
    seq![47u8, 116u8, 101u8, 114u8, 109u8, 105u8, 110u8, 97u8, 108u8, 46u8, 104u8, 116u8, 109u8, 108u8]
}

/// `/terminal.html` as a new vector.
pub fn path_html() -> (r: Vec<u8>)
    ensures
        r@ == path_html_spec(),
{
    vec![47u8, 116u8, 101u8, 114u8, 109u8, 105u8, 110u8, 97u8, 108u8, 46u8, 104u8, 116u8, 109u8, 108u8]
}

/// The bytes of `/terminal.js`.
pub open spec fn path_js_spec() -> Seq<u8> {
    seq![47u8, 116u8, 101u8, 114u8, 109u8, 105u8, 110u8, 97u8, 108u8, 46u8, 106u8, 115u8]
}

/// `/terminal.js` as a new vector.
pub fn path_js() -> (r: Vec<u8>)
    ensures
        r@ == path_js_spec(),
{
    vec![47u8, 116u8, 101u8, 114u8, 109u8, 105u8, 110u8, 97u8, 108u8, 46u8, 106u8, 115u8]
}

/// The bytes of `HTTP/1.1 `.
pub open spec fn status_line_start_spec() -> Seq<u8> {
    seq![72u8, 84u8, 84u8, 80u8, 47u8, 49u8, 46u8, 49u8, 32u8]
}

/// `HTTP/1.1 ` as a new vector.
pub fn status_line_start() -> (r: Vec<u8>)
    ensures
        r@ == status_line_start_spec(),
{
    vec![72u8, 84u8, 84u8, 80u8, 47u8, 49u8, 46u8, 49u8, 32u8]
}

/// The bytes of `\r\nContent-Type: `.
pub open spec fn content_type_head_spec() -> Seq<u8> {
    seq![13u8, 10u8, 67u8, 111u8, 110u8, 116u8, 101u8, 110u8, 116u8, 45u8, 84u8, 121u8, 112u8, 101u8, 58u8, 32u8]
}

/// `\r\nContent-Type: ` as a new vector.
pub fn content_type_head() -> (r: Vec<u8>)
    ensures
        r@ == content_type_head_spec(),
{
    vec![13u8, 10u8, 67u8, 111u8, 110u8, 116u8, 101u8, 110u8, 116u8, 45u8, 84u8, 121u8, 112u8, 101u8, 58u8, 32u8]
}

/// The bytes of `\r\nContent-Length: `.
pub open spec fn content_length_head_spec() -> Seq<u8> {
    seq![13u8, 10u8, 67u8, 111u8, 110u8, 116u8, 101u8, 110u8, 116u8, 45u8, 76u8, 101u8, 110u8, 103u8, 116u8, 104u8, 58u8, 32u8]
}

/// `\r\nContent-Length: ` as a new vector.
pub fn content_length_head() -> (r: Vec<u8>)
    ensures
        r@ == content_length_head_spec(),
{
    vec![13u8, 10u8, 67u8, 111u8, 110u8, 116u8, 101u8, 110u8, 116u8, 45u8, 76u8, 101u8, 110u8, 103u8, 116u8, 104u8, 58u8, 32u8]
}

/// The bytes of `200 OK`.
pub open spec fn status_ok_spec() -> Seq<u8> {
    seq![50u8, 48u8, 48u8, 32u8, 79u8, 75u8]
}

/// `200 OK` as a new vector.
pub fn status_ok() -> (r: Vec<u8>)
    ensures
        r@ == status_ok_spec(),
{
    vec![50u8, 48u8, 48u8, 32u8, 79u8, 75u8]
}

/// The bytes of `text/html; charset=utf-8`.
pub open spec fn type_html_spec() -> Seq<u8> {
    seq![116u8, 101u8, 120u8, 116u8, 47u8, 104u8, 116u8, 109u8, 108u8, 59u8, 32u8, 99u8, 104u8, 97u8, 114u8, 115u8, 101u8, 116u8, 61u8, 117u8, 116u8, 102u8, 45u8, 56u8]
}

/// `text/html; charset=utf-8` as a new vector.
pub fn type_html() -> (r: Vec<u8>)
    ensures
        r@ == type_html_spec(),
{
    vec![116u8, 101u8, 120u8, 116u8, 47u8, 104u8, 116u8, 109u8, 108u8, 59u8, 32u8, 99u8, 104u8, 97u8, 114u8, 115u8, 101u8, 116u8, 61u8, 117u8, 116u8, 102u8, 45u8, 56u8]
}

/// The bytes of `application/javascript`.
pub open spec fn type_js_spec() -> Seq<u8> {
    seq![97u8, 112u8, 112u8, 108u8, 105u8, 99u8, 97u8, 116u8, 105u8, 111u8, 110u8, 47u8, 106u8, 97u8, 118u8, 97u8, 115u8, 99u8, 114u8, 105u8, 112u8, 116u8]
}

/// `application/javascript` as a new vector.
pub fn type_js() -> (r: Vec<u8>)
    ensures
        r@ == type_js_spec(),
{
    vec![97u8, 112u8, 112u8, 108u8, 105u8, 99u8, 97u8, 116u8, 105u8, 111u8, 110u8, 47u8, 106u8, 97u8, 118u8, 97u8, 115u8, 99u8, 114u8, 105u8, 112u8, 116u8]
}

/// The bytes of `websocket`.
pub open spec fn word_lower_spec() -> Seq<u8> {
    seq![119u8, 101u8, 98u8, 115u8, 111u8, 99u8, 107u8, 101u8, 116u8]
}

/// `websocket` as a new vector.
pub fn word_lower() -> (r: Vec<u8>)
    ensures
        r@ == word_lower_spec(),
{
    vec![119u8, 101u8, 98u8, 115u8, 111u8, 99u8, 107u8, 101u8, 116u8]
}

/// The bytes of `WebSocket`.
pub open spec fn word_upper_spec() -> Seq<u8> {
    seq![87u8, 101u8, 98u8, 83u8, 111u8, 99u8, 107u8, 101u8, 116u8]
}

/// `WebSocket` as a new vector.
pub fn word_upper() -> (r: Vec<u8>)
    ensures
        r@ == word_upper_spec(),
{
    vec![87u8, 101u8, 98u8, 83u8, 111u8, 99u8, 107u8, 101u8, 116u8]
}

/// The bytes of `\x07`.
pub open spec fn bell_spec() -> Seq<u8> {
    seq![7u8]
}

/// `\x07` as a new vector.
pub fn bell() -> (r: Vec<u8>)
    ensures
        r@ == bell_spec(),
{
    vec![7u8]
}

/// The bytes of `^C\n`.
pub open spec fn interrupt_spec() -> Seq<u8> {
    seq![94u8, 67u8, 10u8]
}

/// `^C\n` as a new vector.
pub fn interrupt() -> (r: Vec<u8>)
    ensures
        r@ == interrupt_spec(),
{
    vec![94u8, 67u8, 10u8]
}

/// The bytes of `ls `.
pub open spec fn comp_ls_spec() -> Seq<u8> {
    seq![108u8, 115u8, 32u8]
}

/// `ls ` as a new vector.
pub fn comp_ls() -> (r: Vec<u8>)
    ensures
        r@ == comp_ls_spec(),
{
    vec![108u8, 115u8, 32u8]
}

/// The bytes of `cd `.
pub open spec fn comp_cd_spec() -> Seq<u8> {
    seq![99u8, 100u8, 32u8]
}

/// `cd ` as a new vector.
pub fn comp_cd() -> (r: Vec<u8>)
    ensures
        r@ == comp_cd_spec(),
{
    vec![99u8, 100u8, 32u8]
}

/// The bytes of `pwd`.
pub open spec fn comp_pwd_spec() -> Seq<u8> {
    seq![112u8, 119u8, 100u8]
}

/// `pwd` as a new vector.
pub fn comp_pwd() -> (r: Vec<u8>)
    ensures
        r@ == comp_pwd_spec(),
{
    vec![112u8, 119u8, 100u8]
}

/// The bytes of `echo `.
pub open spec fn comp_echo_spec() -> Seq<u8> {
    seq![101u8, 99u8, 104u8, 111u8, 32u8]
}

/// `echo ` as a new vector.
pub fn comp_echo() -> (r: Vec<u8>)
    ensures
        r@ == comp_echo_spec(),
{
    vec![101u8, 99u8, 104u8, 111u8, 32u8]
}

/// The bytes of `alias `.
pub open spec fn comp_alias_spec() -> Seq<u8> {
    seq![97u8, 108u8, 105u8, 97u8, 115u8, 32u8]
}

/// `alias ` as a new vector.
pub fn comp_alias() -> (r: Vec<u8>)
    ensures
        r@ == comp_alias_spec(),
{
    vec![97u8, 108u8, 105u8, 97u8, 115u8, 32u8]
}

/// The bytes of `history`.
pub open spec fn comp_history_spec() -> Seq<u8> {
    seq![104u8, 105u8, 115u8, 116u8, 111u8, 114u8, 121u8]
}

/// `history` as a new vector.
pub fn comp_history() -> (r: Vec<u8>)
    ensures
        r@ == comp_history_spec(),
{
    vec![104u8, 105u8, 115u8, 116u8, 111u8, 114u8, 121u8]
}

/// The bytes of `serve `.
pub open spec fn comp_serve_spec() -> Seq<u8> {
    seq![115u8, 101u8, 114u8, 118u8, 101u8, 32u8]
}

/// `serve ` as a new vector.
pub fn comp_serve() -> (r: Vec<u8>)
    ensures
        r@ == comp_serve_spec(),
{
    vec![115u8, 101u8, 114u8, 118u8, 101u8, 32u8]
}

/// The bytes of `/bin:/usr/bin:/usr/local/bin`.
pub open spec fn default_path_spec() -> Seq<u8> {
    seq![47u8, 98u8, 105u8, 110u8, 58u8, 47u8, 117u8, 115u8, 114u8, 47u8, 98u8, 105u8, 110u8, 58u8, 47u8, 117u8, 115u8, 114u8, 47u8, 108u8, 111u8, 99u8, 97u8, 108u8, 47u8, 98u8, 105u8, 110u8]
}

/// `/bin:/usr/bin:/usr/local/bin` as a new vector.
pub fn default_path() -> (r: Vec<u8>)
    ensures
        r@ == default_path_spec(),
{
    vec![47u8, 98u8, 105u8, 110u8, 58u8, 47u8, 117u8, 115u8, 114u8, 47u8, 98u8, 105u8, 110u8, 58u8, 47u8, 117u8, 115u8, 114u8, 47u8, 108u8, 111u8, 99u8, 97u8, 108u8, 47u8, 98u8, 105u8, 110u8]
}

/// The bytes of `PATH`.
pub open spec fn var_path_spec() -> Seq<u8> {
    seq![80u8, 65u8, 84u8, 72u8]
}

/// `PATH` as a new vector.
pub fn var_path() -> (r: Vec<u8>)
    ensures
        r@ == var_path_spec(),
{
    vec![80u8, 65u8, 84u8, 72u8]
}

/// The bytes of `HOME`.
pub open spec fn var_home_spec() -> Seq<u8> {
    seq![72u8, 79u8, 77u8, 69u8]
}

/// `HOME` as a new vector.
pub fn var_home() -> (r: Vec<u8>)
    ensures
        r@ == var_home_spec(),
{
    vec![72u8, 79u8, 77u8, 69u8]
}

/// The bytes of `USER`.
pub open spec fn var_user_spec() -> Seq<u8> {
    seq![85u8, 83u8, 69u8, 82u8]
}

/// `USER` as a new vector.
pub fn var_user() -> (r: Vec<u8>)
    ensures
        r@ == var_user_spec(),
{
    vec![85u8, 83u8, 69u8, 82u8]
}

/// The bytes of `/home`.
pub open spec fn default_home_spec() -> Seq<u8> {
    seq![47u8, 104u8, 111u8, 109u8, 101u8]
}

/// `/home` as a new vector.
pub fn default_home() -> (r: Vec<u8>)
    ensures
        r@ == default_home_spec(),
{
    vec![47u8, 104u8, 111u8, 109u8, 101u8]
}

/// The bytes of `user`.
pub open spec fn default_user_spec() -> Seq<u8> {
    seq![117u8, 115u8, 101u8, 114u8]
}

/// `user` as a new vector.
pub fn default_user() -> (r: Vec<u8>)
    ensures
        r@ == default_user_spec(),
{
    vec![117u8, 115u8, 101u8, 114u8]
}

/// The bytes of `/bin/`.
pub open spec fn bin_dir_spec() -> Seq<u8> {
    seq![47u8, 98u8, 105u8, 110u8, 47u8]
}

/// `/bin/` as a new vector.
pub fn bin_dir() -> (r: Vec<u8>)
    ensures
        r@ == bin_dir_spec(),
{
    vec![47u8, 98u8, 105u8, 110u8, 47u8]
}

/// The bytes of `\r\n\r\n`.
pub open spec fn crlf2_spec() -> Seq<u8> {
    seq![13u8, 10u8, 13u8, 10u8]
}

/// `\r\n\r\n` as a new vector.
pub fn crlf2() -> (r: Vec<u8>)
    ensures
        r@ == crlf2_spec(),
{
    vec![13u8, 10u8, 13u8, 10u8]
}

/// The bytes of `export: too many variables\n`.
pub open spec fn export_full_spec() -> Seq<u8> {
    seq![101u8, 120u8, 112u8, 111u8, 114u8, 116u8, 58u8, 32u8, 116u8, 111u8, 111u8, 32u8, 109u8, 97u8, 110u8, 121u8, 32u8, 118u8, 97u8, 114u8, 105u8, 97u8, 98u8, 108u8, 101u8, 115u8, 10u8]
}

/// `export: too many variables\n` as a new vector.
pub fn export_full() -> (r: Vec<u8>)
    ensures
        r@ == export_full_spec(),
{
    vec![101u8, 120u8, 112u8, 111u8, 114u8, 116u8, 58u8, 32u8, 116u8, 111u8, 111u8, 32u8, 109u8, 97u8, 110u8, 121u8, 32u8, 118u8, 97u8, 114u8, 105u8, 97u8, 98u8, 108u8, 101u8, 115u8, 10u8]
}

/// The bytes of `export: invalid format (use NAME=VALUE)\n`.
pub open spec fn export_invalid_spec() -> Seq<u8> {
    seq![101u8, 120u8, 112u8, 111u8, 114u8, 116u8, 58u8, 32u8, 105u8, 110u8, 118u8, 97u8, 108u8, 105u8, 100u8, 32u8, 102u8, 111u8, 114u8, 109u8, 97u8, 116u8, 32u8, 40u8, 117u8, 115u8, 101u8, 32u8, 78u8, 65u8, 77u8, 69u8, 61u8, 86u8, 65u8, 76u8, 85u8, 69u8, 41u8, 10u8]
}

/// `export: invalid format (use NAME=VALUE)\n` as a new vector.
pub fn export_invalid() -> (r: Vec<u8>)
    ensures
        r@ == export_invalid_spec(),
{
    vec![101u8, 120u8, 112u8, 111u8, 114u8, 116u8, 58u8, 32u8, 105u8, 110u8, 118u8, 97u8, 108u8, 105u8, 100u8, 32u8, 102u8, 111u8, 114u8, 109u8, 97u8, 116u8, 32u8, 40u8, 117u8, 115u8, 101u8, 32u8, 78u8, 65u8, 77u8, 69u8, 61u8, 86u8, 65u8, 76u8, 85u8, 69u8, 41u8, 10u8]
}

/// The bytes of `pwd: error getting current directory\n`.
pub open spec fn pwd_error_local_spec() -> Seq<u8> {
    seq![112u8, 119u8, 100u8, 58u8, 32u8, 101u8, 114u8, 114u8, 111u8, 114u8, 32u8, 103u8, 101u8, 116u8, 116u8, 105u8, 110u8, 103u8, 32u8, 99u8, 117u8, 114u8, 114u8, 101u8, 110u8, 116u8, 32u8, 100u8, 105u8, 114u8, 101u8, 99u8, 116u8, 111u8, 114u8, 121u8, 10u8]
}

/// `pwd: error getting current directory\n` as a new vector.
pub fn pwd_error_local() -> (r: Vec<u8>)
    ensures
        r@ == pwd_error_local_spec(),
{
    vec![112u8, 119u8, 100u8, 58u8, 32u8, 101u8, 114u8, 114u8, 111u8, 114u8, 32u8, 103u8, 101u8, 116u8, 116u8, 105u8, 110u8, 103u8, 32u8, 99u8, 117u8, 114u8, 114u8, 101u8, 110u8, 116u8, 32u8, 100u8, 105u8, 114u8, 101u8, 99u8, 116u8, 111u8, 114u8, 121u8, 10u8]
}

} // verus!
