use light_control::keys::SerdeStringKey;
use light_control::shelly::components::SwitchingKey;
use light_control::shelly::light;
use std::str::FromStr;

#[test]
fn test_parse_actor_key() {
    let actor_key = SwitchingKey::Light(SerdeStringKey(light::LightKey { id: 0 }));
    let result = actor_key.to_string();
    println!("Result: {}", result);
    assert_eq!(actor_key, SwitchingKey::from_str(result.as_str()).unwrap());
}
