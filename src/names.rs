use vstd::prelude::*;

verus! {

/// The lower-case header name `connection`.
pub open spec fn connection_name() -> Seq<u8> {
    seq![99u8, 111, 110, 110, 101, 99, 116, 105, 111, 110]
}

pub fn connection_bytes() -> (r: Vec<u8>)
    ensures
        r@ == connection_name(),
{
    let r = vec![99u8, 111, 110, 110, 101, 99, 116, 105, 111, 110];
    assert(r@ =~= connection_name());
    r
}

/// The lower-case header name `keep-alive`.
pub open spec fn keep_alive_name() -> Seq<u8> {
    seq![107u8, 101, 101, 112, 45, 97, 108, 105, 118, 101]
}

pub fn keep_alive_bytes() -> (r: Vec<u8>)
    ensures
        r@ == keep_alive_name(),
{
    let r = vec![107u8, 101, 101, 112, 45, 97, 108, 105, 118, 101];
    assert(r@ =~= keep_alive_name());
    r
}

/// The lower-case header name `proxy-authenticate`.
pub open spec fn proxy_authenticate_name() -> Seq<u8> {
    seq![112u8, 114, 111, 120, 121, 45, 97, 117, 116, 104, 101, 110, 116, 105, 99, 97, 116, 101]
}

pub fn proxy_authenticate_bytes() -> (r: Vec<u8>)
    ensures
        r@ == proxy_authenticate_name(),
{
    let r = vec![112u8, 114, 111, 120, 121, 45, 97, 117, 116, 104, 101, 110, 116, 105, 99, 97, 116, 101];
    assert(r@ =~= proxy_authenticate_name());
    r
}

/// The lower-case header name `proxy-authorization`.
pub open spec fn proxy_authorization_name() -> Seq<u8> {
    seq![112u8, 114, 111, 120, 121, 45, 97, 117, 116, 104, 111, 114, 105, 122, 97, 116, 105, 111, 110]
}

pub fn proxy_authorization_bytes() -> (r: Vec<u8>)
    ensures
        r@ == proxy_authorization_name(),
{
    let r = vec![112u8, 114, 111, 120, 121, 45, 97, 117, 116, 104, 111, 114, 105, 122, 97, 116, 105, 111, 110];
    assert(r@ =~= proxy_authorization_name());
    r
}

/// The lower-case header name `te`.
pub open spec fn te_name() -> Seq<u8> {
    seq![116u8, 101]
}

pub fn te_bytes() -> (r: Vec<u8>)
    ensures
        r@ == te_name(),
{
    let r = vec![116u8, 101];
    assert(r@ =~= te_name());
    r
}

/// The lower-case header name `trailer`.
pub open spec fn trailer_name() -> Seq<u8> {
    seq![116u8, 114, 97, 105, 108, 101, 114]
}

pub fn trailer_bytes() -> (r: Vec<u8>)
    ensures
        r@ == trailer_name(),
{
    let r = vec![116u8, 114, 97, 105, 108, 101, 114];
    assert(r@ =~= trailer_name());
    r
}

/// The lower-case header name `transfer-encoding`.
pub open spec fn transfer_encoding_name() -> Seq<u8> {
    seq![116u8, 114, 97, 110, 115, 102, 101, 114, 45, 101, 110, 99, 111, 100, 105, 110, 103]
}

pub fn transfer_encoding_bytes() -> (r: Vec<u8>)
    ensures
        r@ == transfer_encoding_name(),
{
    let r = vec![116u8, 114, 97, 110, 115, 102, 101, 114, 45, 101, 110, 99, 111, 100, 105, 110, 103];
    assert(r@ =~= transfer_encoding_name());
    r
}

/// The lower-case header name `upgrade`.
pub open spec fn upgrade_name() -> Seq<u8> {
    seq![117u8, 112, 103, 114, 97, 100, 101]
}

pub fn upgrade_bytes() -> (r: Vec<u8>)
    ensures
        r@ == upgrade_name(),
{
    let r = vec![117u8, 112, 103, 114, 97, 100, 101];
    assert(r@ =~= upgrade_name());
    r
}

/// The lower-case header name `user-agent`.
pub open spec fn user_agent_name() -> Seq<u8> {
    seq![117u8, 115, 101, 114, 45, 97, 103, 101, 110, 116]
}

pub fn user_agent_bytes() -> (r: Vec<u8>)
    ensures
        r@ == user_agent_name(),
{
    let r = vec![117u8, 115, 101, 114, 45, 97, 103, 101, 110, 116];
    assert(r@ =~= user_agent_name());
    r
}

/// The lower-case header name `authorization`.
pub open spec fn authorization_name() -> Seq<u8> {
    seq![97u8, 117, 116, 104, 111, 114, 105, 122, 97, 116, 105, 111, 110]
}

pub fn authorization_bytes() -> (r: Vec<u8>)
    ensures
        r@ == authorization_name(),
{
    let r = vec![97u8, 117, 116, 104, 111, 114, 105, 122, 97, 116, 105, 111, 110];
    assert(r@ =~= authorization_name());
    r
}

/// The fixed user name expected in `Proxy-Authorization: Basic` credentials.
pub open spec fn proxy_user_name() -> Seq<u8> {
    seq![112u8, 114, 111, 120, 121]
}

pub fn proxy_user_bytes() -> (r: Vec<u8>)
    ensures
        r@ == proxy_user_name(),
{
    let r = vec![112u8, 114, 111, 120, 121];
    assert(r@ =~= proxy_user_name());
    r
}

/// The bytes `http://`.
pub open spec fn http_prefix_name() -> Seq<u8> {
    seq![104u8, 116, 116, 112, 58, 47, 47]
}

pub fn http_prefix_bytes() -> (r: Vec<u8>)
    ensures
        r@ == http_prefix_name(),
{
    let r = vec![104u8, 116, 116, 112, 58, 47, 47];
    assert(r@ =~= http_prefix_name());
    r
}

/// The bytes `https://`.
pub open spec fn https_prefix_name() -> Seq<u8> {
    seq![104u8, 116, 116, 112, 115, 58, 47, 47]
}

pub fn https_prefix_bytes() -> (r: Vec<u8>)
    ensures
        r@ == https_prefix_name(),
{
    let r = vec![104u8, 116, 116, 112, 115, 58, 47, 47];
    assert(r@ =~= https_prefix_name());
    r
}

/// The bytes `url=`.
pub open spec fn url_param_name() -> Seq<u8> {
    seq![117u8, 114, 108, 61]
}

pub fn url_param_bytes() -> (r: Vec<u8>)
    ensures
        r@ == url_param_name(),
{
    let r = vec![117u8, 114, 108, 61];
    assert(r@ =~= url_param_name());
    r
}

/// The bytes `CONNECT`.
pub open spec fn connect_method_name() -> Seq<u8> {
    seq![67u8, 79, 78, 78, 69, 67, 84]
}

pub fn connect_method_bytes() -> (r: Vec<u8>)
    ensures
        r@ == connect_method_name(),
{
    let r = vec![67u8, 79, 78, 78, 69, 67, 84];
    assert(r@ =~= connect_method_name());
    r
}

/// The response body `unauthorized`.
pub open spec fn unauthorized_body() -> Seq<u8> {
    seq![117u8, 110, 97, 117, 116, 104, 111, 114, 105, 122, 101, 100]
}

pub fn unauthorized_body_bytes() -> (r: Vec<u8>)
    ensures
        r@ == unauthorized_body(),
{
    let r = vec![117u8, 110, 97, 117, 116, 104, 111, 114, 105, 122, 101, 100];
    assert(r@ =~= unauthorized_body());
    r
}

/// The response body `bad target`.
pub open spec fn bad_target_body() -> Seq<u8> {
    seq![98u8, 97, 100, 32, 116, 97, 114, 103, 101, 116]
}

pub fn bad_target_body_bytes() -> (r: Vec<u8>)
    ensures
        r@ == bad_target_body(),
{
    let r = vec![98u8, 97, 100, 32, 116, 97, 114, 103, 101, 116];
    assert(r@ =~= bad_target_body());
    r
}

/// The response body `bad gateway`.
pub open spec fn bad_gateway_body() -> Seq<u8> {
    seq![98u8, 97, 100, 32, 103, 97, 116, 101, 119, 97, 121]
}

pub fn bad_gateway_body_bytes() -> (r: Vec<u8>)
    ensures
        r@ == bad_gateway_body(),
{
    let r = vec![98u8, 97, 100, 32, 103, 97, 116, 101, 119, 97, 121];
    assert(r@ =~= bad_gateway_body());
    r
}

/// The response body `body too large`.
pub open spec fn too_large_body() -> Seq<u8> {
    seq![98u8, 111, 100, 121, 32, 116, 111, 111, 32, 108, 97, 114, 103, 101]
}

pub fn too_large_body_bytes() -> (r: Vec<u8>)
    ensures
        r@ == too_large_body(),
{
    let r = vec![98u8, 111, 100, 121, 32, 116, 111, 111, 32, 108, 97, 114, 103, 101];
    assert(r@ =~= too_large_body());
    r
}

/// The response body `internal error`.
pub open spec fn internal_body() -> Seq<u8> {
    seq![105u8, 110, 116, 101, 114, 110, 97, 108, 32, 101, 114, 114, 111, 114]
}

pub fn internal_body_bytes() -> (r: Vec<u8>)
    ensures
        r@ == internal_body(),
{
    let r = vec![105u8, 110, 116, 101, 114, 110, 97, 108, 32, 101, 114, 114, 111, 114];
    assert(r@ =~= internal_body());
    r
}

/// The response body `not found`.
pub open spec fn not_found_body() -> Seq<u8> {
    seq![110u8, 111, 116, 32, 102, 111, 117, 110, 100]
}

pub fn not_found_body_bytes() -> (r: Vec<u8>)
    ensures
        r@ == not_found_body(),
{
    let r = vec![110u8, 111, 116, 32, 102, 111, 117, 110, 100];
    assert(r@ =~= not_found_body());
    r
}

/// The lower-case authentication scheme `bearer`.
pub open spec fn bearer_scheme_name() -> Seq<u8> {
    seq![98u8, 101, 97, 114, 101, 114]
}

} // verus!
