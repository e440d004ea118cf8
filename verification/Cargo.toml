[package]
name = "audio_router"
version = "0.1.0"
edition = "2021"
publish = false

[dependencies]
ringbuf = "0.3"
cpal = "0.15"
rdev = "0.5"
winapi = { version = "0.3", features = ["audioclient", "audiosessiontypes", "avrt", "combaseapi", "coml2api", "functiondiscoverykeys_devpkey", "guiddef", "handleapi", "ksmedia", "mmdeviceapi", "mmreg", "ntdef", "objbase", "propidl", "propsys", "synchapi", "unknwnbase", "winbase", "winerror", "wtypes"] }
