[package]
name = "linked_data_sparql"
version = "0.1.0"
edition = "2021"
publish = false

[dependencies]
spargebra = "=0.4.8"
sparopt = "=0.3.9"
xsd-types = "*"
