use purchases_aggregator::users::{encode_user, user_from_request, User, UserCreationRequest};

#[test]
fn a_request_becomes_the_published_user() {
    let req = UserCreationRequest {
        username: b"ada".to_vec(),
        first_name: b"Ada".to_vec(),
        last_name: b"Lovelace".to_vec(),
        password: b"pw".to_vec(),
    };
    let user = user_from_request(req);
    assert_eq!(user.id, 1);
    assert_eq!(user.username, b"ada".to_vec());
    assert_eq!(user.first_name, b"Ada".to_vec());
    assert_eq!(user.last_name, b"Lovelace".to_vec());
    assert_eq!(user.password, b"pw".to_vec());
}

#[test]
fn user_encoding_is_the_avro_datum_layout() {
    let user = User {
        id: 1,
        username: b"ab".to_vec(),
        first_name: b"C".to_vec(),
        last_name: Vec::new(),
        password: b"d".to_vec(),
    };
    // id 1 zig-zags to 2; each text field is its zig-zagged byte length,
    // then its bytes.
    let expected = vec![
        0x02, // id
        0x04, b'a', b'b', // username
        0x02, b'C', // first name
        0x00, // empty last name
        0x02, b'd', // password
    ];
    assert_eq!(encode_user(&user), expected);
}

#[test]
fn user_encoding_matches_reference_avro_library() {
    let schema = apache_avro::Schema::parse_str(
        r#"{"type":"record","name":"User","fields":[
            {"name":"id","type":"int"},
            {"name":"username","type":"string"},
            {"name":"first_name","type":"string"},
            {"name":"last_name","type":"string"},
            {"name":"password","type":"string"}]}"#,
    )
    .unwrap();
    let value = apache_avro::types::Value::Record(vec![
        ("id".to_string(), apache_avro::types::Value::Int(1)),
        ("username".to_string(), apache_avro::types::Value::String("ada".to_string())),
        ("first_name".to_string(), apache_avro::types::Value::String("Ada".to_string())),
        ("last_name".to_string(), apache_avro::types::Value::String("Lovelace".to_string())),
        ("password".to_string(), apache_avro::types::Value::String("pw".to_string())),
    ]);
    let reference = apache_avro::to_avro_datum(&schema, value).unwrap();
    let user = User {
        id: 1,
        username: b"ada".to_vec(),
        first_name: b"Ada".to_vec(),
        last_name: b"Lovelace".to_vec(),
        password: b"pw".to_vec(),
    };
    assert_eq!(encode_user(&user), reference);
}
